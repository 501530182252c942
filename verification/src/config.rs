//! Generation configuration.
//!
//! The backend's sampling parameters, with every numeric field clamped on
//! write and never rejected.  Small real-valued parameters are held in
//! thousandths (see [`crate::numerals`]); the context window and the
//! top-k cutoff are plain integers.  Editing walks the six fields in a
//! fixed cyclic order; committing an edit parses the typed text, silently
//! keeping the old value when the text is not numeric.

use vstd::prelude::*;

use crate::numerals::{
    dec_digits, format_milli, format_u64, milli_chars, parse_milli_chars, parse_u64_chars,
    spec_parse_milli, spec_parse_u64, PARSE_CAP,
};
use crate::text::str_to_chars;

verus! {

/// Highest temperature, in thousandths.
pub const TEMPERATURE_MAX: u32 = 2000;

/// Highest nucleus-sampling probability, in thousandths.
pub const TOP_P_MAX: u32 = 1000;

/// Highest repeat penalty, in thousandths.
pub const REPEAT_PENALTY_MAX: u32 = 2000;

/// Bounds of the context window, in tokens.
pub const NUM_CTX_MIN: u64 = 512;

pub const NUM_CTX_MAX: u64 = 32768;

/// The six editable fields, in their display order.
#[derive(Clone, Copy, PartialEq, Eq, Structural, Debug)]
pub enum ConfigField {
    Temperature,
    TopP,
    TopK,
    RepeatPenalty,
    ContextWindow,
    SystemPrompt,
}

/// The sampling parameters handed to the backend on every generation.
/// `temperature`, `top_p` and `repeat_penalty` are in thousandths.
pub struct ModelConfig {
    pub temperature: u32,
    pub top_p: u32,
    pub top_k: u32,
    pub repeat_penalty: u32,
    pub num_ctx: u64,
    pub system_prompt: String,
}

/// The mathematical content of a [`ModelConfig`].
pub struct ConfigView {
    pub temperature: u32,
    pub top_p: u32,
    pub top_k: u32,
    pub repeat_penalty: u32,
    pub num_ctx: u64,
    pub system_prompt: Seq<char>,
}

impl View for ModelConfig {
    type V = ConfigView;

    open spec fn view(&self) -> ConfigView {
        ConfigView {
            temperature: self.temperature,
            top_p: self.top_p,
            top_k: self.top_k,
            repeat_penalty: self.repeat_penalty,
            num_ctx: self.num_ctx,
            system_prompt: self.system_prompt@,
        }
    }
}

/// Every numeric field sits inside its documented range.
pub open spec fn config_wf(c: ConfigView) -> bool {
    &&& c.temperature <= TEMPERATURE_MAX
    &&& c.top_p <= TOP_P_MAX
    &&& 1 <= c.top_k <= PARSE_CAP
    &&& c.repeat_penalty <= REPEAT_PENALTY_MAX
    &&& NUM_CTX_MIN <= c.num_ctx <= NUM_CTX_MAX
}

/// The configuration used when none was stored: temperature 0.8,
/// top-p 0.9, top-k 40, repeat penalty 1.1, a 2048-token window and a
/// plain helpful-assistant directive.
pub open spec fn default_config() -> ConfigView {
    ConfigView {
        temperature: 800,
        top_p: 900,
        top_k: 40,
        repeat_penalty: 1100,
        num_ctx: 2048,
        system_prompt: "You are a helpful AI assistant."@,
    }
}

impl Clone for ModelConfig {
    fn clone(&self) -> (r: Self)
        ensures
            r@ == self@,
    {
        ModelConfig {
            temperature: self.temperature,
            top_p: self.top_p,
            top_k: self.top_k,
            repeat_penalty: self.repeat_penalty,
            num_ctx: self.num_ctx,
            system_prompt: self.system_prompt.clone(),
        }
    }
}

impl Default for ModelConfig {
    fn default() -> (r: Self)
        ensures
            r@ == default_config(),
            config_wf(r@),
    {
        ModelConfig {
            temperature: 800,
            top_p: 900,
            top_k: 40,
            repeat_penalty: 1100,
            num_ctx: 2048,
            system_prompt: "You are a helpful AI assistant.".to_owned(),
        }
    }
}

/// The field after `f` in the cyclic edit order.
pub open spec fn spec_next_field(f: ConfigField) -> ConfigField {
    match f {
        ConfigField::Temperature => ConfigField::TopP,
        ConfigField::TopP => ConfigField::TopK,
        ConfigField::TopK => ConfigField::RepeatPenalty,
        ConfigField::RepeatPenalty => ConfigField::ContextWindow,
        ConfigField::ContextWindow => ConfigField::SystemPrompt,
        ConfigField::SystemPrompt => ConfigField::Temperature,
    }
}

/// The field before `f` in the cyclic edit order.
pub open spec fn spec_prev_field(f: ConfigField) -> ConfigField {
    match f {
        ConfigField::Temperature => ConfigField::SystemPrompt,
        ConfigField::TopP => ConfigField::Temperature,
        ConfigField::TopK => ConfigField::TopP,
        ConfigField::RepeatPenalty => ConfigField::TopK,
        ConfigField::ContextWindow => ConfigField::RepeatPenalty,
        ConfigField::SystemPrompt => ConfigField::ContextWindow,
    }
}

/// Stepping forward then backward, or backward then forward, stands
/// still; six forward steps return to the start of the cycle.
pub proof fn lemma_field_cycle(f: ConfigField)
    ensures
        spec_prev_field(spec_next_field(f)) == f,
        spec_next_field(spec_prev_field(f)) == f,
        spec_next_field(
            spec_next_field(
                spec_next_field(spec_next_field(spec_next_field(spec_next_field(f)))),
            ),
        ) == f,
{
}

/// `v` forced into `lo ..= hi` (for `lo <= hi`).
pub open spec fn clamp_int(v: int, lo: int, hi: int) -> int {
    if v < lo {
        lo
    } else if v > hi {
        hi
    } else {
        v
    }
}

/// The stored configuration after committing `text` to field `f`: numeric
/// text is clamped into the field's range, text that does not parse
/// leaves the field as it was, and the system prompt takes any text
/// verbatim.
pub open spec fn spec_update_field(c: ConfigView, f: ConfigField, text: Seq<char>) -> ConfigView {
    match f {
        ConfigField::Temperature => match spec_parse_milli(text) {
            Some(v) => ConfigView {
                temperature: clamp_int(v, 0, TEMPERATURE_MAX as int) as u32,
                ..c
            },
            None => c,
        },
        ConfigField::TopP => match spec_parse_milli(text) {
            Some(v) => ConfigView { top_p: clamp_int(v, 0, TOP_P_MAX as int) as u32, ..c },
            None => c,
        },
        ConfigField::TopK => match spec_parse_u64(text) {
            Some(v) => ConfigView { top_k: clamp_int(v as int, 1, PARSE_CAP as int) as u32, ..c },
            None => c,
        },
        ConfigField::RepeatPenalty => match spec_parse_milli(text) {
            Some(v) => ConfigView {
                repeat_penalty: clamp_int(v, 0, REPEAT_PENALTY_MAX as int) as u32,
                ..c
            },
            None => c,
        },
        ConfigField::ContextWindow => match spec_parse_u64(text) {
            Some(v) => ConfigView {
                num_ctx: clamp_int(v as int, NUM_CTX_MIN as int, NUM_CTX_MAX as int) as u64,
                ..c
            },
            None => c,
        },
        ConfigField::SystemPrompt => ConfigView { system_prompt: text, ..c },
    }
}

/// The text shown for field `f`: the numeral of its stored value, or the
/// system prompt itself.
pub open spec fn spec_field_text(c: ConfigView, f: ConfigField) -> Seq<char> {
    match f {
        ConfigField::Temperature => milli_chars(c.temperature as nat),
        ConfigField::TopP => milli_chars(c.top_p as nat),
        ConfigField::TopK => dec_digits(c.top_k as nat),
        ConfigField::RepeatPenalty => milli_chars(c.repeat_penalty as nat),
        ConfigField::ContextWindow => dec_digits(c.num_ctx as nat),
        ConfigField::SystemPrompt => c.system_prompt,
    }
}

impl ModelConfig {
    /// Commits `text` to field `f`, clamping numeric values into range.
    pub fn update_field(&mut self, f: ConfigField, text: String)
        ensures
            final(self)@ == spec_update_field(old(self)@, f, text@),
            config_wf(old(self)@) ==> config_wf(final(self)@),
    {
        let chars = str_to_chars(text.as_str());
        match f {
            ConfigField::Temperature => {
                if let Some(v) = parse_milli_chars(&chars) {
                    self.temperature = clamp_i64(v, 0, TEMPERATURE_MAX as i64) as u32;
                }
            },
            ConfigField::TopP => {
                if let Some(v) = parse_milli_chars(&chars) {
                    self.top_p = clamp_i64(v, 0, TOP_P_MAX as i64) as u32;
                }
            },
            ConfigField::TopK => {
                if let Some(v) = parse_u64_chars(&chars) {
                    let w = if v > PARSE_CAP {
                        PARSE_CAP
                    } else {
                        v
                    };
                    self.top_k = clamp_i64(w as i64, 1, PARSE_CAP as i64) as u32;
                }
            },
            ConfigField::RepeatPenalty => {
                if let Some(v) = parse_milli_chars(&chars) {
                    self.repeat_penalty = clamp_i64(v, 0, REPEAT_PENALTY_MAX as i64) as u32;
                }
            },
            ConfigField::ContextWindow => {
                if let Some(v) = parse_u64_chars(&chars) {
                    let w = if v > NUM_CTX_MAX {
                        NUM_CTX_MAX
                    } else {
                        v
                    };
                    self.num_ctx = clamp_i64(w as i64, NUM_CTX_MIN as i64, NUM_CTX_MAX as i64)
                        as u64;
                }
            },
            ConfigField::SystemPrompt => {
                self.system_prompt = text;
            },
        }
    }

    /// The text shown for field `f`.
    pub fn field_text(&self, f: ConfigField) -> (r: String)
        ensures
            r@ == spec_field_text(self@, f),
    {
        match f {
            ConfigField::Temperature => {
                let v = format_milli(self.temperature as u64);
                crate::text::chars_to_string(&v)
            },
            ConfigField::TopP => {
                let v = format_milli(self.top_p as u64);
                crate::text::chars_to_string(&v)
            },
            ConfigField::TopK => {
                let v = format_u64(self.top_k as u64);
                crate::text::chars_to_string(&v)
            },
            ConfigField::RepeatPenalty => {
                let v = format_milli(self.repeat_penalty as u64);
                crate::text::chars_to_string(&v)
            },
            ConfigField::ContextWindow => {
                let v = format_u64(self.num_ctx);
                crate::text::chars_to_string(&v)
            },
            ConfigField::SystemPrompt => self.system_prompt.clone(),
        }
    }
}

/// `v` forced into `lo ..= hi`.
pub(crate) fn clamp_i64(v: i64, lo: i64, hi: i64) -> (r: i64)
    requires
        lo <= hi,
    ensures
        r == clamp_int(v as int, lo as int, hi as int),
{
    if v < lo {
        lo
    } else if v > hi {
        hi
    } else {
        v
    }
}

/// Committing a field's own shown text changes nothing: a write is
/// idempotent under clamping.
pub proof fn lemma_update_idempotent(c: ConfigView, f: ConfigField)
    requires
        config_wf(c),
    ensures
        spec_update_field(c, f, spec_field_text(c, f)) == c,
{
    match f {
        ConfigField::Temperature => {
            crate::numerals::lemma_milli_roundtrip(c.temperature as nat);
        },
        ConfigField::TopP => {
            crate::numerals::lemma_milli_roundtrip(c.top_p as nat);
        },
        ConfigField::TopK => {
            crate::numerals::lemma_parse_dec_digits(c.top_k as nat);
        },
        ConfigField::RepeatPenalty => {
            crate::numerals::lemma_milli_roundtrip(c.repeat_penalty as nat);
        },
        ConfigField::ContextWindow => {
            crate::numerals::lemma_parse_dec_digits(c.num_ctx as nat);
        },
        ConfigField::SystemPrompt => {},
    }
}

} // verus!
