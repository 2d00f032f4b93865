//! Engine configuration: input, output, khin and tone modes.
//!
//! A configuration is a snapshot passed by reference into the converter on
//! each request; it is mutated only by the explicit set-config and
//! switch-mode commands, which reset the composition first.

use vstd::prelude::*;

verus! {

/// How keystrokes drive conversion.
#[derive(Debug, Clone, Copy, PartialEq, Eq, Structural)]
pub enum InputMode {
    Continuous,
    Classic,
    Manual,
}

/// Which script converted text is shown and committed in.
#[derive(Debug, Clone, Copy, PartialEq, Eq, Structural)]
pub enum OutputMode {
    Lomaji,
    Hanji,
}

/// How the khin (unstressed syllable) marker is rendered.
#[derive(Debug, Clone, Copy, PartialEq, Eq, Structural)]
pub enum KhinMode {
    Khinless,
    Dot,
    Hyphen,
}

/// The letter keys that write tones in Telex mode. Tones 1 and 4 are never
/// keyed; every other tone has one designated letter, and one more letter
/// marks khin.
#[derive(Debug, Clone, Copy, PartialEq, Eq, Structural)]
pub struct TelexKeys {
    pub t2: char,
    pub t3: char,
    pub t5: char,
    pub t6: char,
    pub t7: char,
    pub t8: char,
    pub t9: char,
    pub khin: char,
}

/// How tones are encoded in raw keystrokes: trailing digits, or designated
/// Telex letter keys.
#[derive(Debug, Clone, Copy, PartialEq, Eq, Structural)]
pub enum ToneMode {
    Numeric,
    Telex(TelexKeys),
}

/// The default Telex letter keys.
pub fn default_telex_keys() -> (r: TelexKeys)
    ensures
        r == spec_default_telex_keys(),
{
    TelexKeys { t2: 's', t3: 'f', t5: 'l', t6: 'x', t7: 'j', t8: 'w', t9: 'q', khin: 'v' }
}

/// The default Telex letter keys.
pub open spec fn spec_default_telex_keys() -> TelexKeys {
    TelexKeys { t2: 's', t3: 'f', t5: 'l', t6: 'x', t7: 'j', t8: 'w', t9: 'q', khin: 'v' }
}

/// The engine's process-lived configuration.
#[derive(Debug, Clone, Copy, PartialEq, Eq, Structural)]
pub struct Config {
    pub input_mode: InputMode,
    pub output_mode: OutputMode,
    pub khin_mode: KhinMode,
    pub tone_mode: ToneMode,
}

impl Config {
    /// A fresh configuration: continuous input, Lomaji output, dotted khin,
    /// numeric tones.
    pub fn new() -> (r: Config)
        ensures
            r == spec_initial_config(),
    {
        Config {
            input_mode: InputMode::Continuous,
            output_mode: OutputMode::Lomaji,
            khin_mode: KhinMode::Dot,
            tone_mode: ToneMode::Numeric,
        }
    }

    pub fn input_mode(&self) -> (r: InputMode)
        ensures
            r == self.input_mode,
    {
        self.input_mode
    }

    pub fn output_mode(&self) -> (r: OutputMode)
        ensures
            r == self.output_mode,
    {
        self.output_mode
    }

    pub fn khin_mode(&self) -> (r: KhinMode)
        ensures
            r == self.khin_mode,
    {
        self.khin_mode
    }

    pub fn tone_mode(&self) -> (r: ToneMode)
        ensures
            r == self.tone_mode,
    {
        self.tone_mode
    }

    pub fn set_input_mode(&mut self, m: InputMode)
        ensures
            *final(self) == (Config { input_mode: m, ..*old(self) }),
    {
        self.input_mode = m;
    }

    pub fn set_output_mode(&mut self, m: OutputMode)
        ensures
            *final(self) == (Config { output_mode: m, ..*old(self) }),
    {
        self.output_mode = m;
    }

    pub fn set_khin_mode(&mut self, m: KhinMode)
        ensures
            *final(self) == (Config { khin_mode: m, ..*old(self) }),
    {
        self.khin_mode = m;
    }

    pub fn set_tone_mode(&mut self, m: ToneMode)
        ensures
            *final(self) == (Config { tone_mode: m, ..*old(self) }),
    {
        self.tone_mode = m;
    }

    /// The Telex keys in force: the configured ones in Telex mode, the
    /// defaults otherwise.
    pub open spec fn spec_telex_keys(&self) -> TelexKeys {
        match self.tone_mode {
            ToneMode::Telex(keys) => keys,
            ToneMode::Numeric => spec_default_telex_keys(),
        }
    }

    pub fn telex_keys(&self) -> (r: TelexKeys)
        ensures
            r == self.spec_telex_keys(),
    {
        match self.tone_mode {
            ToneMode::Telex(keys) => keys,
            ToneMode::Numeric => default_telex_keys(),
        }
    }

    pub fn t2(&self) -> (r: char)
        ensures
            r == self.spec_telex_keys().t2,
    {
        self.telex_keys().t2
    }

    pub fn t3(&self) -> (r: char)
        ensures
            r == self.spec_telex_keys().t3,
    {
        self.telex_keys().t3
    }

    pub fn t5(&self) -> (r: char)
        ensures
            r == self.spec_telex_keys().t5,
    {
        self.telex_keys().t5
    }

    pub fn t6(&self) -> (r: char)
        ensures
            r == self.spec_telex_keys().t6,
    {
        self.telex_keys().t6
    }

    pub fn t7(&self) -> (r: char)
        ensures
            r == self.spec_telex_keys().t7,
    {
        self.telex_keys().t7
    }

    pub fn t8(&self) -> (r: char)
        ensures
            r == self.spec_telex_keys().t8,
    {
        self.telex_keys().t8
    }

    pub fn t9(&self) -> (r: char)
        ensures
            r == self.spec_telex_keys().t9,
    {
        self.telex_keys().t9
    }

    pub fn khin(&self) -> (r: char)
        ensures
            r == self.spec_telex_keys().khin,
    {
        self.telex_keys().khin
    }
}

/// The configuration a fresh engine starts with.
pub open spec fn spec_initial_config() -> Config {
    Config {
        input_mode: InputMode::Continuous,
        output_mode: OutputMode::Lomaji,
        khin_mode: KhinMode::Dot,
        tone_mode: ToneMode::Numeric,
    }
}

} // verus!
