//! The settings record that every operation reads afresh, and the rule for
//! turning whatever the settings file held into a usable configuration:
//! a missing or malformed document yields the built-in default, while an
//! unreadable one is reported to the caller.
use vstd::prelude::*;
use vstd::string::*;

verus! {

/// Flags gating which agent actions are allowed to act.
#[derive(Clone, Debug)]
pub struct Permissions {
    pub open_files: bool,
    pub open_folders: bool,
    pub web_search: bool,
}

/// One immutable snapshot of the user's settings.
#[derive(Clone, Debug)]
pub struct Config {
    pub openai_api_key: String,
    pub gemini_api_key: String,
    pub deepseek_api_key: String,
    /// Which backend transforms text: "ollama" or "openai".
    pub llm_provider: String,
    pub ollama_model: String,
    pub ollama_base_url: String,
    pub theme: String,
    pub hotkey: String,
    pub permissions: Permissions,
    pub search_roots: Vec<String>,
    /// Whether the background clipboard watcher runs.
    pub clipboard_sentinel: bool,
}

/// What the built-in default configuration holds: the local backend, every
/// permission granted, the watcher enabled.
pub open spec fn is_default_config(c: Config) -> bool {
    &&& c.openai_api_key@ == Seq::<char>::empty()
    &&& c.gemini_api_key@ == Seq::<char>::empty()
    &&& c.deepseek_api_key@ == Seq::<char>::empty()
    &&& c.llm_provider@ == "ollama"@
    &&& c.ollama_model@ == "llama3.1"@
    &&& c.ollama_base_url@ == "http://localhost:11434"@
    &&& c.theme@ == "dark"@
    &&& c.hotkey@ == "Ctrl+Alt+Space"@
    &&& c.permissions.open_files
    &&& c.permissions.open_folders
    &&& c.permissions.web_search
    &&& c.search_roots@.len() == 0
    &&& c.clipboard_sentinel
}

impl Default for Config {
    /// The configuration used when no settings document can be read.
    fn default() -> (r: Self)
        ensures
            is_default_config(r),
    {
        Config {
            openai_api_key: String::new(),
            gemini_api_key: String::new(),
            deepseek_api_key: String::new(),
            llm_provider: String::from_str("ollama"),
            ollama_model: String::from_str("llama3.1"),
            ollama_base_url: String::from_str("http://localhost:11434"),
            theme: String::from_str("dark"),
            hotkey: String::from_str("Ctrl+Alt+Space"),
            permissions: Permissions { open_files: true, open_folders: true, web_search: true },
            search_roots: Vec::new(),
            clipboard_sentinel: true,
        }
    }
}

/// What loading the settings document produced, before the fallback rule.
pub enum ConfigSource {
    /// No settings document exists.
    Missing,
    /// The document exists but could not be read; holds the I/O message.
    Unreadable(String),
    /// The document was read; `None` when it did not parse as a configuration.
    Contents(Option<Config>),
}

/// The configuration an operation runs with, given what the store produced:
/// parsed contents win; a missing or malformed document degrades to the
/// default; only an unreadable document is an error, worded by the reader.
pub fn load_outcome(source: ConfigSource) -> (r: Result<Config, String>)
    ensures
        source is Missing ==> (r matches Ok(c) && is_default_config(c)),
        source matches ConfigSource::Unreadable(e) ==> r == Err::<Config, String>(e),
        source matches ConfigSource::Contents(Some(c)) ==> r == Ok::<Config, String>(c),
        source matches ConfigSource::Contents(None) ==> (r matches Ok(c) && is_default_config(c)),
{
    match source {
        ConfigSource::Missing => Ok(Config::default()),
        ConfigSource::Unreadable(e) => Err(e),
        ConfigSource::Contents(Some(c)) => Ok(c),
        ConfigSource::Contents(None) => Ok(Config::default()),
    }
}

} // verus!
