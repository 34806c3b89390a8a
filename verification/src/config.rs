//! The launcher's configuration (`config.toml`) and the settings it resolves to.
use vstd::prelude::*;

verus! {

/// Default game directory.
pub open spec fn default_game_dir() -> Seq<char> {
    "."@
}

/// Default Java executable.
pub open spec fn default_java() -> Seq<char> {
    "java"@
}

/// Default offline user name.
pub open spec fn default_username() -> Seq<char> {
    "Player"@
}

/// Default maximum heap size in MiB.
pub open spec fn default_max_ram_mb() -> u32 {
    2048
}

/// Default game version.
pub open spec fn default_version() -> Seq<char> {
    "1.8.9"@
}

/// Default asset index.
pub open spec fn default_asset_index() -> Seq<char> {
    "1.8"@
}

/// The contents of `config.toml`; every key may be absent.
pub struct Config {
    pub game_dir: Option<String>,
    pub java: Option<String>,
    pub username: Option<String>,
    pub max_ram_mb: Option<u32>,
    pub version: Option<String>,
    pub asset_index: Option<String>,
}

/// The value a string key resolves to: its own value when present, else `default`.
pub open spec fn resolve(field: Option<String>, default: Seq<char>) -> Seq<char> {
    match field {
        Some(s) => s@,
        None => default,
    }
}

/// The configuration that holds every documented default.
pub open spec fn is_default_config(c: Config) -> bool {
    &&& c.game_dir matches Some(s) && s@ == default_game_dir()
    &&& c.java matches Some(s) && s@ == default_java()
    &&& c.username matches Some(s) && s@ == default_username()
    &&& c.max_ram_mb == Some(default_max_ram_mb())
    &&& c.version matches Some(s) && s@ == default_version()
    &&& c.asset_index matches Some(s) && s@ == default_asset_index()
}

impl Default for Config {
    /// The configuration used when `config.toml` is missing or cannot be parsed.
    fn default() -> (c: Config)
        ensures
            is_default_config(c),
    {
        Config {
            game_dir: Some(String::from_str(".")),
            java: Some(String::from_str("java")),
            username: Some(String::from_str("Player")),
            max_ram_mb: Some(2048),
            version: Some(String::from_str("1.8.9")),
            asset_index: Some(String::from_str("1.8")),
        }
    }
}

/// The configuration that takes effect: the parsed file when it could be read and
/// parsed (`Some`), otherwise the defaults.
pub fn config_or_default(parsed: Option<Config>) -> (c: Config)
    ensures
        match parsed {
            Some(p) => c == p,
            None => is_default_config(c),
        },
{
    match parsed {
        Some(p) => p,
        None => Config::default(),
    }
}

/// Fully resolved settings: every key has a value.
pub struct Settings {
    pub game_dir: String,
    pub java: String,
    pub username: String,
    pub max_ram_mb: u32,
    pub version: String,
    pub asset_index: String,
}

/// Each setting is the configured value when present, else its default.
pub open spec fn settings_resolve(cfg: Config, s: Settings) -> bool {
    &&& s.game_dir@ == resolve(cfg.game_dir, default_game_dir())
    &&& s.java@ == resolve(cfg.java, default_java())
    &&& s.username@ == resolve(cfg.username, default_username())
    &&& s.max_ram_mb == (match cfg.max_ram_mb {
        Some(m) => m,
        None => default_max_ram_mb(),
    })
    &&& s.version@ == resolve(cfg.version, default_version())
    &&& s.asset_index@ == resolve(cfg.asset_index, default_asset_index())
}

fn or_default(field: &Option<String>, default: &str) -> (r: String)
    ensures
        r@ == resolve(*field, default@),
{
    match field {
        Some(s) => s.clone(),
        None => String::from_str(default),
    }
}

impl Settings {
    /// Resolves every key of `cfg`, filling absent keys with the defaults.
    pub fn from_config(cfg: &Config) -> (s: Settings)
        ensures
            settings_resolve(*cfg, s),
    {
        proof {
            reveal_strlit(".");
            reveal_strlit("java");
            reveal_strlit("Player");
            reveal_strlit("1.8.9");
            reveal_strlit("1.8");
        }
        Settings {
            game_dir: or_default(&cfg.game_dir, "."),
            java: or_default(&cfg.java, "java"),
            username: or_default(&cfg.username, "Player"),
            max_ram_mb: match cfg.max_ram_mb {
                Some(m) => m,
                None => 2048,
            },
            version: or_default(&cfg.version, "1.8.9"),
            asset_index: or_default(&cfg.asset_index, "1.8"),
        }
    }
}

/// Law: a key left out of `config.toml` takes the value that the default
/// configuration gives it, so a partial file and the defaults agree on it.
pub proof fn lemma_absent_key_takes_default(cfg: Config, d: Config, s: Settings, t: Settings)
    requires
        is_default_config(d),
        settings_resolve(cfg, s),
        settings_resolve(d, t),
    ensures
        cfg.game_dir is None ==> s.game_dir@ == t.game_dir@,
        cfg.java is None ==> s.java@ == t.java@,
        cfg.username is None ==> s.username@ == t.username@,
        cfg.max_ram_mb is None ==> s.max_ram_mb == t.max_ram_mb,
        cfg.version is None ==> s.version@ == t.version@,
        cfg.asset_index is None ==> s.asset_index@ == t.asset_index@,
{
}

/// Law: a key present in `config.toml` is used as written.
pub proof fn lemma_present_key_is_used(cfg: Config, s: Settings)
    requires
        settings_resolve(cfg, s),
    ensures
        cfg.game_dir matches Some(v) ==> s.game_dir@ == v@,
        cfg.java matches Some(v) ==> s.java@ == v@,
        cfg.username matches Some(v) ==> s.username@ == v@,
        cfg.max_ram_mb matches Some(v) ==> s.max_ram_mb == v,
        cfg.version matches Some(v) ==> s.version@ == v@,
        cfg.asset_index matches Some(v) ==> s.asset_index@ == v@,
{
}

/// What the launcher does.
#[derive(PartialEq, Eq, Structural, Debug, Clone, Copy)]
pub enum Mode {
    /// Download the offline game files and the bundled JRE.
    Setup,
    /// Start the game.
    Launch,
}

/// The mode named by the first command-line argument: `setup` selects
/// [`Mode::Setup`]; anything else, or no argument, launches the game.
pub fn select_mode(arg: Option<&str>) -> (m: Mode)
    ensures
        (m == Mode::Setup) <==> (arg matches Some(a) && a@ == "setup"@),
{
    match arg {
        Some(a) => {
            if crate::text::str_equal(a, "setup") {
                Mode::Setup
            } else {
                Mode::Launch
            }
        },
        None => Mode::Launch,
    }
}

} // verus!
