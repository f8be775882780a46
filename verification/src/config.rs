//! The configuration and its defaults.

use vstd::prelude::*;

use crate::model::RepeatMode;
use crate::real64::Real64;
use crate::text::{lowered, same_text, to_lower};

verus! {

/// `0.65` as a bit pattern: the default similarity for fuzzy matches.
pub const DEFAULT_FUZZY: u64 = 0x3FE4_CCCC_CCCC_CCCD;

/// The default port.
pub const DEFAULT_PORT: u16 = 14567;

/// The default number of search results.
pub const DEFAULT_SEARCH_COUNT: usize = 3;

/// Where the server listens.
#[derive(Clone, Debug)]
pub struct ServerConfig {
    /// `127.0.0.1` for this machine alone, `0.0.0.0` for the network.
    pub host: String,
    pub port: u16,
}

impl Default for ServerConfig {
    fn default() -> (r: Self)
        ensures
            r.host@ == "127.0.0.1"@,
            r.port == DEFAULT_PORT,
            r.port == 14567,
    {
        ServerConfig { host: String::from_str("127.0.0.1"), port: DEFAULT_PORT }
    }
}

/// What is logged.
#[derive(Clone, Debug)]
pub struct LoggingConfig {
    /// `trace`, `debug`, `info`, `warn` or `error`.
    pub level: String,
}

impl Default for LoggingConfig {
    fn default() -> (r: Self)
        ensures
            r.level@ == "info"@,
    {
        LoggingConfig { level: String::from_str("info") }
    }
}

/// The library and its queue.
#[derive(Clone, Debug)]
pub struct LibraryConfig {
    /// The library root, absolute or relative to the directory of the
    /// configuration file.
    pub music_dir: Option<String>,
    /// Most songs in the queue; zero for no limit.
    pub max_queue_size: usize,
    /// The repeat mode at start: `off`, `one` or `all`.
    pub default_repeat: String,
}

impl Default for LibraryConfig {
    fn default() -> (r: Self)
        ensures
            r.music_dir is None,
            r.max_queue_size == 0,
            r.default_repeat@ == "off"@,
    {
        LibraryConfig {
            music_dir: None,
            max_queue_size: 0,
            default_repeat: String::from_str("off"),
        }
    }
}

/// How songs are searched for.
#[derive(Clone, Debug)]
pub struct SearchConfig {
    /// Similarity below which a fuzzy match does not count.
    pub fuzzy_threshold: Real64,
}

impl Default for SearchConfig {
    fn default() -> (r: Self)
        ensures
            r.fuzzy_threshold.bits == DEFAULT_FUZZY,
            r.fuzzy_threshold.bits == 0x3FE4_CCCC_CCCC_CCCD,
    {
        SearchConfig { fuzzy_threshold: Real64 { bits: DEFAULT_FUZZY } }
    }
}

/// How downloads are searched for.
#[derive(Clone, Debug)]
pub struct DownloadConfig {
    /// How many search results are shown by default.
    pub search_count: usize,
}

impl Default for DownloadConfig {
    fn default() -> (r: Self)
        ensures
            r.search_count == DEFAULT_SEARCH_COUNT,
            r.search_count == 3,
    {
        DownloadConfig { search_count: DEFAULT_SEARCH_COUNT }
    }
}

/// The whole configuration.
#[derive(Clone, Debug)]
pub struct Config {
    pub server: ServerConfig,
    pub logging: LoggingConfig,
    pub library: LibraryConfig,
    pub search: SearchConfig,
    pub download: DownloadConfig,
    /// Whether requests from elsewhere have to carry the token.
    pub auth_enabled: bool,
    /// The token; without one nothing is asked for.
    pub auth_token: String,
}

impl Default for Config {
    fn default() -> (r: Self)
        ensures
            r.server.host@ == "127.0.0.1"@,
            r.server.port == DEFAULT_PORT,
            r.server.port == 14567,
            r.logging.level@ == "info"@,
            r.library.music_dir is None,
            r.library.max_queue_size == 0,
            r.library.default_repeat@ == "off"@,
            r.search.fuzzy_threshold.bits == DEFAULT_FUZZY,
            r.search.fuzzy_threshold.bits == 0x3FE4_CCCC_CCCC_CCCD,
            r.download.search_count == DEFAULT_SEARCH_COUNT,
            r.download.search_count == 3,
            !r.auth_enabled,
            r.auth_token@.len() == 0,
    {
        Config {
            server: ServerConfig::default(),
            logging: LoggingConfig::default(),
            library: LibraryConfig::default(),
            search: SearchConfig::default(),
            download: DownloadConfig::default(),
            auth_enabled: false,
            auth_token: String::new(),
        }
    }
}

impl Config {
    /// The token that requests from elsewhere have to carry, if any: none where
    /// authentication is off or no token is set.
    pub fn required_token(&self) -> (r: Option<String>)
        ensures
            match r {
                Some(t) => self.auth_enabled && self.auth_token@.len() > 0 && t == self.auth_token,
                None => !self.auth_enabled || self.auth_token@.len() == 0,
            },
    {
        if self.auth_enabled && self.auth_token.as_str().unicode_len() > 0 {
            Some(self.auth_token.clone())
        } else {
            None
        }
    }

    /// Whether a token has to be made up at start: authentication is on and
    /// there is none.
    pub fn needs_token(&self) -> (r: bool)
        ensures
            r == (self.auth_enabled && self.auth_token@.len() == 0),
    {
        self.auth_enabled && self.auth_token.as_str().unicode_len() == 0
    }

    /// The repeat mode at start; off where the configured one is none.
    pub fn initial_repeat(&self) -> (r: RepeatMode)
        ensures
            r == (match crate::model::repeat_mode_of(self.library.default_repeat@) {
                Some(m) => m,
                None => RepeatMode::Off,
            }),
    {
        match RepeatMode::parse(self.library.default_repeat.as_str()) {
            Some(m) => m,
            None => RepeatMode::Off,
        }
    }
}

/// How much is logged.
#[derive(Clone, Copy, Debug, PartialEq, Eq, Structural)]
pub enum LogLevel {
    Trace,
    Debug,
    Info,
    Warn,
    Error,
}

/// The level that a text names; `Info` where it names none.
pub open spec fn level_of(s: Seq<char>) -> LogLevel {
    let t = lowered(s);
    if t == "trace"@ {
        LogLevel::Trace
    } else if t == "debug"@ {
        LogLevel::Debug
    } else if t == "info"@ {
        LogLevel::Info
    } else if t == "warn"@ || t == "warning"@ {
        LogLevel::Warn
    } else if t == "error"@ {
        LogLevel::Error
    } else {
        LogLevel::Info
    }
}

/// Reads a log level; `Info` where the text names none.
pub fn parse_level(s: &str) -> (r: LogLevel)
    ensures
        r == level_of(s@),
{
    let t = to_lower(s);
    let w = t.as_str();
    if same_text(w, "trace") {
        LogLevel::Trace
    } else if same_text(w, "debug") {
        LogLevel::Debug
    } else if same_text(w, "info") {
        LogLevel::Info
    } else if same_text(w, "warn") || same_text(w, "warning") {
        LogLevel::Warn
    } else if same_text(w, "error") {
        LogLevel::Error
    } else {
        LogLevel::Info
    }
}

/// The names of the levels, in any case; warnings have two. Any other text
/// stands for `Info`.
pub proof fn lemma_level_names(s: Seq<char>)
    ensures
        lowered(s) == "trace"@ <==> level_of(s) == LogLevel::Trace,
        lowered(s) == "debug"@ <==> level_of(s) == LogLevel::Debug,
        lowered(s) == "warn"@ || lowered(s) == "warning"@ <==> level_of(s) == LogLevel::Warn,
        lowered(s) == "error"@ <==> level_of(s) == LogLevel::Error,
{
    reveal_strlit("trace");
    reveal_strlit("debug");
    reveal_strlit("info");
    reveal_strlit("warn");
    reveal_strlit("warning");
    reveal_strlit("error");
    assert("trace"@.len() == 5 && "debug"@.len() == 5 && "error"@.len() == 5);
    assert("info"@.len() == 4 && "warn"@.len() == 4 && "warning"@.len() == 7);
    assert("trace"@[0] == 't' && "debug"@[0] == 'd' && "error"@[0] == 'e');
    assert("info"@[0] == 'i' && "warn"@[0] == 'w');
}

} // verus!
