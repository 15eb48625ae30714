use my_quick_feed::cli::{config_path_arg, resolve_cli_args};
use my_quick_feed::config::{
    config_or_default, discord_configured, find_topic, load_config_cli, should_write_default, strip_bom, AppConfig, CliConfig, DiscordConfig, LoadedConfig, TopicConfig,
};
use my_quick_feed::error::AppError;
use my_quick_feed::scheduler::{
    begin_refresh, begin_scheduled_run, finish_run, interval_minutes, interval_seconds, run_once_topics, ScheduledRun, TopicSet,
};

fn topic(name: &str) -> TopicConfig {
    TopicConfig {
        name: name.to_string(),
        language: None,
        interval_min: 0,
        sources: Vec::new(),
        system_prompt: None,
        image_search_enabled: None,
        research_enabled: None,
        forum_channel_id: None,
        reference_urls: Vec::new(),
        reference_mode: None,
    }
}

fn config(names: &[&str]) -> AppConfig {
    let mut c = AppConfig::default();
    c.topics = names.iter().map(|n| topic(n)).collect();
    c
}

#[test]
fn topic_set_holds_each_name_once() {
    let mut s = TopicSet::new();
    assert!(s.insert("a"));
    assert!(!s.insert("a"));
    assert!(s.insert("b"));
    assert!(s.contains("a"));
    let mut names = s.names();
    names.sort();
    assert_eq!(names, vec!["a".to_string(), "b".to_string()]);
    assert!(s.remove("a"));
    assert!(!s.remove("a"));
    assert!(!s.contains("a"));
    let all = s.take_all();
    assert_eq!(all, vec!["b".to_string()]);
    assert!(!s.contains("b"));
}

#[test]
fn refresh_of_unknown_topic_fails() {
    let c = config(&["APEX"]);
    let mut running = TopicSet::new();
    match begin_refresh(&c, &mut running, "Other") {
        Err(AppError::Other(m)) => assert_eq!(m, "Topic 'Other' not found"),
        _ => panic!(),
    }
    assert!(!running.contains("Other"));
}

#[test]
fn a_topic_never_runs_twice_at_once() {
    let c = config(&["A", "APEX"]);
    let mut running = TopicSet::new();
    assert_eq!(begin_refresh(&c, &mut running, "APEX").ok(), Some(1));
    match begin_refresh(&c, &mut running, "APEX") {
        Err(AppError::Other(m)) => assert_eq!(m, "Topic 'APEX' is already running"),
        _ => panic!(),
    }
    assert!(matches!(begin_scheduled_run(&c, &mut running, "APEX"), ScheduledRun::AlreadyRunning));
    let r = finish_run(&mut running, "APEX", Err(AppError::Agent("x".to_string())));
    assert!(matches!(r, Err(AppError::Agent(m)) if m == "x"));
    assert!(!running.contains("APEX"));
    assert!(matches!(begin_scheduled_run(&c, &mut running, "APEX"), ScheduledRun::Run(1)));
    assert!(running.contains("APEX"));
    assert!(matches!(begin_scheduled_run(&c, &mut running, "Gone"), ScheduledRun::TopicMissing));
    assert!(!running.contains("Gone"));
}

#[test]
fn interval_is_at_least_a_minute() {
    assert_eq!(interval_minutes(0), 1);
    assert_eq!(interval_minutes(120), 120);
    assert_eq!(interval_seconds(0), 60);
    assert_eq!(interval_seconds(120), 7200);
}

#[test]
fn run_once_selects_named_or_all_topics() {
    let c = config(&["A", "B", "A"]);
    assert_eq!(run_once_topics(&c.topics, Some("A")), vec![0, 2]);
    assert_eq!(run_once_topics(&c.topics, None), vec![0, 1, 2]);
    assert!(run_once_topics(&c.topics, Some("Z")).is_empty());
    assert_eq!(find_topic(&c.topics, "A"), Some(0));
    assert_eq!(find_topic(&c.topics, "Z"), None);
}

fn args(v: &[&str]) -> Vec<String> {
    v.iter().map(|s| s.to_string()).collect()
}

fn defaults() -> CliConfig {
    CliConfig { no_post: true, console: true, run_once: true, topic: Some("T".to_string()), no_run: false, verbose: false }
}

#[test]
fn command_line_flags_override_file_defaults() {
    let a = args(&["app", "--post", "--no-console", "--scheduler", "--topic", "X", "--no-run", "--debug"]);
    let r = resolve_cli_args(&a, &defaults(), Some("c.yaml".to_string()));
    assert!(r.post_enabled);
    assert!(!r.console);
    assert!(!r.run_once);
    assert_eq!(r.topic_filter.as_deref(), Some("X"));
    assert!(r.no_initial_run);
    assert!(r.verbose);
    assert_eq!(r.config_path.as_deref(), Some("c.yaml"));
}

#[test]
fn file_defaults_apply_without_flags() {
    let r = resolve_cli_args(&args(&["app"]), &defaults(), None);
    assert!(!r.post_enabled);
    assert!(r.console);
    assert!(r.run_once);
    assert_eq!(r.topic_filter.as_deref(), Some("T"));
    assert!(!r.no_initial_run);
    let mut d = defaults();
    d.topic = Some(String::new());
    let r = resolve_cli_args(&args(&["app", "--no-post", "--post", "--topic"]), &d, None);
    assert!(!r.post_enabled);
    assert!(r.topic_filter.is_none());
}

#[test]
fn config_path_comes_after_its_flag() {
    assert_eq!(config_path_arg(&args(&["app", "--config", "x.yaml"])).as_deref(), Some("x.yaml"));
    assert!(config_path_arg(&args(&["app", "--config"])).is_none());
    assert!(config_path_arg(&args(&["app"])).is_none());
}

#[test]
fn default_configuration_values() {
    let c = AppConfig::default();
    assert_eq!(c.ai.mode, "agent");
    assert_eq!(c.ai.agent_command.as_deref(), Some("omp"));
    assert_eq!(c.ai.agent_timeout_sec, Some(120));
    assert_eq!(c.ai.model.as_deref(), Some("mimo-v2.5"));
    assert_eq!(c.ai.provider.as_deref(), Some("opencode-go"));
    assert_eq!(c.ai.thinking_level.as_deref(), Some("high"));
    assert!(c.topics.is_empty());
    assert!(!discord_configured(&c.discord));
    assert!(discord_configured(&DiscordConfig { token: "t".to_string(), forum_channel_id: "c".to_string() }));
    assert!(!discord_configured(&DiscordConfig { token: "t".to_string(), forum_channel_id: String::new() }));
}

#[test]
fn loading_falls_back_to_defaults() {
    assert!(should_write_default(&LoadedConfig::NotFound));
    assert!(!should_write_default(&LoadedConfig::Invalid));
    let c = config_or_default(LoadedConfig::Invalid);
    assert_eq!(c.ai.mode, "agent");
    let mut parsed = config(&["A"]);
    parsed.cli.verbose = true;
    let cli = load_config_cli(LoadedConfig::Parsed(parsed));
    assert!(cli.verbose);
    let cli = load_config_cli(LoadedConfig::NotFound);
    assert!(!cli.no_post && !cli.run_once && cli.topic.is_none());
    assert_eq!(strip_bom("\u{feff}a: 1"), "a: 1");
    assert_eq!(strip_bom("a: 1"), "a: 1");
}
