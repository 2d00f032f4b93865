//! Host-side configuration: the files a host installation knows, its UI
//! language and colors, the toggle hotkey, and the engine section of its
//! configuration file.

use vstd::prelude::*;

verus! {

/// The files a host installation keeps alongside the engine.
#[derive(Debug, Clone, Copy, PartialEq, Eq, Structural)]
pub enum KhiinFile {
    Database,
    Config,
    SettingsApp,
    UserDb,
}

impl KhiinFile {
    /// The registry value name under which the host stores the file's
    /// location.
    pub fn reg_key(&self) -> (r: &'static str)
        ensures
            *self == KhiinFile::Database ==> r@ == "khiin_db"@,
            *self == KhiinFile::Config ==> r@ == "config_toml"@,
            *self == KhiinFile::SettingsApp ==> r@ == "settings_exe"@,
            *self == KhiinFile::UserDb ==> r@ == "user_db"@,
    {
        match *self {
            KhiinFile::Database => "khiin_db",
            KhiinFile::Config => "config_toml",
            KhiinFile::SettingsApp => "settings_exe",
            KhiinFile::UserDb => "user_db",
        }
    }
}

/// The language the host's own UI is shown in.
#[derive(Debug, Clone, Copy, PartialEq, Eq, Structural)]
pub enum UiLanguage {
    English,
    HanloTai,
    LojiTai,
}

/// The host UI's color scheme.
#[derive(Debug, Clone, Copy, PartialEq, Eq, Structural)]
pub enum UiColors {
    Light,
    Dark,
}

/// The hotkey that toggles the input method.
#[derive(Debug, Clone, Copy, PartialEq, Eq, Structural)]
pub enum Hotkey {
    Off,
    AltBacktick,
    Shift,
    CtrlPeriod,
    CtrlBacktick,
}

/// The host's configuration file contents.
#[derive(Debug)]
pub struct WinConfig {
    pub engine: Option<EngineConfig>,
}

impl Default for WinConfig {
    fn default() -> (r: WinConfig)
        ensures
            r.engine is None,
    {
        WinConfig { engine: None }
    }
}

/// The engine section of the host's configuration file.
#[derive(Debug)]
pub struct EngineConfig {
    pub input_mode: Option<String>,
}

impl Default for EngineConfig {
    fn default() -> (r: EngineConfig)
        ensures
            r.input_mode is None,
    {
        EngineConfig { input_mode: None }
    }
}

/// Resolves the location of a known file. The host's registry lookup is
/// not wired up; the resolution falls back to the empty path, and the
/// handle and override are left for the host to honor.
pub fn get_known_file(
    _file: KhiinFile,
    _module: Option<isize>,
    _filename_override: Option<&str>,
) -> (r: String)
    ensures
        r@ == Seq::<char>::empty(),
{
    String::new()
}

} // verus!
