//! Application configuration and its defaults.

use vstd::prelude::*;

verus! {

/// Application configuration.
#[derive(Debug, Clone)]
pub struct AppConfig {
    /// LLM provider configuration.
    pub llm: LLMProviderConfig,
    /// Translation configuration.
    pub translation: TranslationConfig,
    /// UI configuration.
    pub ui: UIConfig,
    /// File paths configuration.
    pub paths: PathsConfig,
}

/// LLM provider configuration.
#[derive(Debug, Clone)]
pub struct LLMProviderConfig {
    /// Provider id.
    pub provider: String,
    /// API key.
    pub api_key: String,
    /// Base URL, for the providers that need one.
    pub base_url: Option<String>,
    /// Model to use.
    pub model: Option<String>,
    /// Maximum number of retries on failure.
    pub max_retries: u32,
    /// Custom prompt template.
    pub prompt_template: Option<String>,
}

/// Translation configuration.
#[derive(Debug, Clone)]
pub struct TranslationConfig {
    /// Chunk size for mod translations.
    pub mod_chunk_size: u32,
    /// Chunk size for quest translations.
    pub quest_chunk_size: u32,
    /// Chunk size for guidebook translations.
    pub guidebook_chunk_size: u32,
    /// Custom languages.
    pub custom_languages: Vec<SupportedLanguage>,
    /// Resource pack name.
    pub resource_pack_name: String,
}

/// UI configuration.
#[derive(Debug, Clone)]
pub struct UIConfig {
    /// Theme: `light`, `dark` or `system`.
    pub theme: String,
}

/// Paths configuration.
#[derive(Debug, Clone)]
pub struct PathsConfig {
    /// Minecraft directory.
    pub minecraft_dir: String,
    /// Mods directory.
    pub mods_dir: String,
    /// Resource packs directory.
    pub resource_packs_dir: String,
    /// Config directory.
    pub config_dir: String,
    /// Logs directory.
    pub logs_dir: String,
}

/// A language that can be translated to.
#[derive(Debug, Clone)]
pub struct SupportedLanguage {
    /// Display name of the language.
    pub name: String,
    /// Language id, such as `ja_jp`.
    pub id: String,
    /// Flag emoji, if any.
    pub flag: Option<String>,
}

/// The configuration has the default values.
pub open spec fn is_default_config(c: AppConfig) -> bool {
    &&& c.llm.provider@ == "openai"@
    &&& c.llm.api_key@ == ""@
    &&& c.llm.base_url is None
    &&& c.llm.model matches Some(m) && m@ == "o4-mini-2025-04-16"@
    &&& c.llm.max_retries == 5
    &&& c.llm.prompt_template is None
    &&& c.translation.mod_chunk_size == 50
    &&& c.translation.quest_chunk_size == 1
    &&& c.translation.guidebook_chunk_size == 1
    &&& c.translation.custom_languages@.len() == 0
    &&& c.translation.resource_pack_name@ == "MinecraftModsLocalizer"@
    &&& c.ui.theme@ == "system"@
    &&& c.paths.minecraft_dir@ == ""@
    &&& c.paths.mods_dir@ == ""@
    &&& c.paths.resource_packs_dir@ == ""@
    &&& c.paths.config_dir@ == ""@
    &&& c.paths.logs_dir@ == ""@
}

/// The default application configuration.
pub fn default_config() -> (c: AppConfig)
    ensures
        is_default_config(c),
{
    AppConfig {
        llm: LLMProviderConfig {
            provider: "openai".to_owned(),
            api_key: "".to_owned(),
            base_url: None,
            model: Some("o4-mini-2025-04-16".to_owned()),
            max_retries: 5,
            prompt_template: None,
        },
        translation: TranslationConfig {
            mod_chunk_size: 50,
            quest_chunk_size: 1,
            guidebook_chunk_size: 1,
            custom_languages: Vec::new(),
            resource_pack_name: "MinecraftModsLocalizer".to_owned(),
        },
        ui: UIConfig { theme: "system".to_owned() },
        paths: PathsConfig {
            minecraft_dir: "".to_owned(),
            mods_dir: "".to_owned(),
            resource_packs_dir: "".to_owned(),
            config_dir: "".to_owned(),
            logs_dir: "".to_owned(),
        },
    }
}

} // verus!
