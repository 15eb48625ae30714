//! The application configuration and what loading it yields.
use vstd::prelude::*;
use vstd::string::*;
use crate::text::{chars_of, str_eq};

verus! {

/// Discord bot credentials and the default forum channel.
#[derive(Clone, Debug)]
pub struct DiscordConfig {
    pub token: String,
    pub forum_channel_id: String,
}

/// How articles are generated.
#[derive(Clone, Debug)]
pub struct AiConfig {
    /// `"agent"` (the agent CLI) or `"direct"` (a chat-completions API).
    pub mode: String,
    pub agent_command: Option<String>,
    pub agent_timeout_sec: Option<u64>,
    pub api_key: Option<String>,
    pub model: Option<String>,
    pub provider: Option<String>,
    pub base_url: Option<String>,
    /// The agent's thinking level (`low`, `medium` or `high`).
    pub thinking_level: Option<String>,
}

/// One feed source of a topic.
#[derive(Clone, Debug)]
pub struct SourceConfig {
    /// `"rss"` or `"rsshub"`.
    pub source_type: String,
    pub url: String,
    /// RSSHub instance (the public one when absent).
    pub base_url: Option<String>,
    /// RSSHub route (the `url` when absent).
    pub path: Option<String>,
}

/// A topic: its feeds, its schedule and how its articles are written.
#[derive(Clone, Debug)]
pub struct TopicConfig {
    pub name: String,
    pub language: Option<String>,
    pub interval_min: u64,
    pub sources: Vec<SourceConfig>,
    pub system_prompt: Option<String>,
    pub image_search_enabled: Option<bool>,
    pub research_enabled: Option<bool>,
    /// Forum channel of this topic (the Discord default when absent).
    pub forum_channel_id: Option<String>,
    /// Reference URLs embedded into prompts.
    pub reference_urls: Vec<String>,
    /// `"preload"` or `"on-demand"` (the default).
    pub reference_mode: Option<String>,
}

/// Default start-up options kept in the configuration file.
#[derive(Clone, Debug)]
pub struct CliConfig {
    pub no_post: bool,
    pub console: bool,
    pub run_once: bool,
    pub topic: Option<String>,
    pub no_run: bool,
    pub verbose: bool,
}

/// The whole configuration file.
#[derive(Clone, Debug)]
pub struct AppConfig {
    pub discord: DiscordConfig,
    pub ai: AiConfig,
    pub topics: Vec<TopicConfig>,
    pub cli: CliConfig,
}

/// All start-up options off.
pub open spec fn is_default_cli(c: CliConfig) -> bool {
    !c.no_post && !c.console && !c.run_once && c.topic is None && !c.no_run && !c.verbose
}

impl Default for CliConfig {
    fn default() -> (r: CliConfig)
        ensures
            is_default_cli(r),
    {
        CliConfig { no_post: false, console: false, run_once: false, topic: None, no_run: false, verbose: false }
    }
}

/// The configuration written on first start: no Discord credentials, the
/// agent mode with the `omp` command, a 120 s timeout, model `mimo-v2.5`
/// from provider `opencode-go` at thinking level `high`, no topics.
pub open spec fn is_default_config(c: AppConfig) -> bool {
    &&& c.discord.token@ == Seq::<char>::empty()
    &&& c.discord.forum_channel_id@ == Seq::<char>::empty()
    &&& c.ai.mode@ == "agent"@
    &&& c.ai.agent_command matches Some(s) && s@ == "omp"@
    &&& c.ai.agent_timeout_sec == Some(120u64)
    &&& c.ai.api_key is None
    &&& c.ai.model matches Some(s) && s@ == "mimo-v2.5"@
    &&& c.ai.provider matches Some(s) && s@ == "opencode-go"@
    &&& c.ai.base_url is None
    &&& c.ai.thinking_level matches Some(s) && s@ == "high"@
    &&& c.topics@.len() == 0
    &&& is_default_cli(c.cli)
}

impl Default for AppConfig {
    fn default() -> (r: AppConfig)
        ensures
            is_default_config(r),
    {
        AppConfig {
            discord: DiscordConfig { token: String::new(), forum_channel_id: String::new() },
            ai: AiConfig {
                mode: String::from_str("agent"),
                agent_command: Some(String::from_str("omp")),
                agent_timeout_sec: Some(120),
                api_key: None,
                model: Some(String::from_str("mimo-v2.5")),
                provider: Some(String::from_str("opencode-go")),
                base_url: None,
                thinking_level: Some(String::from_str("high")),
            },
            topics: Vec::new(),
            cli: CliConfig::default(),
        }
    }
}

/// The configuration text without one leading byte-order mark.
pub open spec fn without_leading_bom(s: Seq<char>) -> Seq<char> {
    if s.len() > 0 && s[0] == '\u{feff}' { s.drop_first() } else { s }
}

/// Removes one leading byte-order mark (files saved by some editors carry one).
pub fn strip_bom(content: &str) -> (r: &str)
    ensures
        r@ == without_leading_bom(content@),
{
    let v = chars_of(content);
    if v.len() > 0 && v[0] == '\u{feff}' {
        let r = content.substring_char(1, v.len());
        assert(r@ =~= content@.drop_first());
        r
    } else {
        let r = content.substring_char(0, v.len());
        assert(r@ =~= content@);
        r
    }
}

/// A leading byte-order mark is ignored: a configuration text reads the
/// same with one mark in front as without (for text that does not itself
/// start with a mark).
pub proof fn leading_bom_is_ignored(c: Seq<char>)
    requires
        !(c.len() > 0 && c[0] == '\u{feff}'),
    ensures
        without_leading_bom(seq!['\u{feff}'] + c) == c,
        without_leading_bom(c) == c,
{
    assert((seq!['\u{feff}'] + c).drop_first() =~= c);
}

/// What reading the configuration file gave.
pub enum LoadedConfig {
    /// The file could not be read (first start).
    NotFound,
    /// The file was read and parsed.
    Parsed(AppConfig),
    /// The file was read but is not a valid configuration.
    Invalid,
}

/// The configuration in force after loading: the parsed one, else the default.
pub fn config_or_default(loaded: LoadedConfig) -> (r: AppConfig)
    ensures
        match loaded {
            LoadedConfig::Parsed(c) => r == c,
            _ => is_default_config(r),
        },
{
    match loaded {
        LoadedConfig::Parsed(c) => c,
        _ => AppConfig::default(),
    }
}

/// The default configuration is written back only when no file was found
/// (a broken file is left untouched).
pub fn should_write_default(loaded: &LoadedConfig) -> (r: bool)
    ensures
        r == (*loaded is NotFound),
{
    match loaded {
        LoadedConfig::NotFound => true,
        _ => false,
    }
}

/// The start-up options of the configuration file; all off when the file is
/// missing or broken.
pub fn load_config_cli(loaded: LoadedConfig) -> (r: CliConfig)
    ensures
        match loaded {
            LoadedConfig::Parsed(c) => r == c.cli,
            _ => is_default_cli(r),
        },
{
    config_or_default(loaded).cli
}

/// Discord posting is set up: both the token and the forum channel are given.
pub fn discord_configured(c: &DiscordConfig) -> (r: bool)
    ensures
        r == (c.token@.len() > 0 && c.forum_channel_id@.len() > 0),
{
    !c.token.as_str().is_empty() && !c.forum_channel_id.as_str().is_empty()
}

/// Index of the first topic named `name`.
pub open spec fn topic_index(topics: Seq<TopicConfig>, name: Seq<char>) -> Option<int>
    decreases topics.len(),
{
    if topics.len() == 0 {
        None
    } else if topics.last().name@ == name && topic_index(topics.drop_last(), name) is None {
        Some(topics.len() - 1)
    } else {
        topic_index(topics.drop_last(), name)
    }
}

/// Finds the first topic with the given name.
pub fn find_topic(topics: &Vec<TopicConfig>, name: &str) -> (r: Option<usize>)
    ensures
        match topic_index(topics@, name@) {
            Some(i) => r == Some(i as usize),
            None => r is None,
        },
        r matches Some(i) ==> i < topics@.len() && topics@[i as int].name@ == name@,
{
    let mut i: usize = 0;
    while i < topics.len()
        invariant
            i <= topics@.len(),
            topic_index(topics@.take(i as int), name@) is None,
        decreases topics@.len() - i,
    {
        proof {
            assert(topics@.take(i + 1).drop_last() =~= topics@.take(i as int));
        }
        if str_eq(topics[i].name.as_str(), name) {
            proof {
                lemma_topic_index_prefix(topics@, name@, i + 1);
            }
            return Some(i);
        }
        i += 1;
    }
    assert(topics@.take(topics@.len() as int) =~= topics@);
    None
}

/// A topic found in a prefix is the topic found in the whole list.
proof fn lemma_topic_index_prefix(topics: Seq<TopicConfig>, name: Seq<char>, k: int)
    requires
        0 <= k <= topics.len(),
        topic_index(topics.take(k), name) is Some,
    ensures
        topic_index(topics, name) == topic_index(topics.take(k), name),
    decreases topics.len() - k,
{
    if k < topics.len() {
        assert(topics.take(k + 1).drop_last() =~= topics.take(k));
        lemma_topic_index_prefix(topics, name, k + 1);
    } else {
        assert(topics.take(k) =~= topics);
    }
}

} // verus!
