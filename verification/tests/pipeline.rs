use my_quick_feed::ai::ArticleResult;
use my_quick_feed::config::{AiConfig, DiscordConfig, SourceConfig, TopicConfig};
use my_quick_feed::error::AppError;
use my_quick_feed::fetcher::rss::{Feed, FeedItem};
use my_quick_feed::pipeline::{
    dry_run_preview, generation_exec, merge_items, PipelineAction, PipelineRun, PipelineStage,
};

fn source(kind: &str, url: &str) -> SourceConfig {
    SourceConfig { source_type: kind.to_string(), url: url.to_string(), base_url: None, path: None }
}

fn topic(sources: Vec<SourceConfig>) -> TopicConfig {
    TopicConfig {
        name: "APEX".to_string(),
        language: None,
        interval_min: 60,
        sources,
        system_prompt: None,
        image_search_enabled: None,
        research_enabled: None,
        forum_channel_id: None,
        reference_urls: Vec::new(),
        reference_mode: None,
    }
}

fn item(link: &str) -> FeedItem {
    FeedItem { title: format!("t {}", link), link: link.to_string(), description: None, pub_date: None, guid: None }
}

fn feed(links: &[&str]) -> Feed {
    Feed { title: None, items: links.iter().map(|l| item(l)).collect() }
}

fn agent_ai() -> AiConfig {
    AiConfig {
        mode: "agent".to_string(),
        agent_command: None,
        agent_timeout_sec: None,
        api_key: None,
        model: None,
        provider: None,
        base_url: None,
        thinking_level: None,
    }
}

fn discord() -> DiscordConfig {
    DiscordConfig { token: "tok".to_string(), forum_channel_id: "global".to_string() }
}

fn article(title: &str, tags: &[&str]) -> ArticleResult {
    ArticleResult {
        title: title.to_string(),
        content: format!("{} body", title),
        image_url: Some("https://img".to_string()),
        sources: Vec::new(),
        tags: tags.iter().map(|t| t.to_string()).collect(),
    }
}

/// Runs the fetching part with one item per source and returns the run
/// waiting for the recent titles.
fn fetched_run(discord_enabled: bool, post_enabled: bool) -> PipelineRun {
    let (mut run, a) = PipelineRun::start(topic(vec![source("rss", "https://a/feed")]), discord_enabled, post_enabled);
    assert!(matches!(a, PipelineAction::FetchRss { .. }));
    let a = run.on_fetched(Ok(feed(&["L1"])));
    assert!(matches!(a, PipelineAction::LoadRecentTitles { days: 2 }));
    run
}

#[test]
fn no_sources_ends_at_once() {
    let (run, a) = PipelineRun::start(topic(Vec::new()), true, true);
    assert!(matches!(a, PipelineAction::Finish(Ok(()))));
    assert!(matches!(run.stage, PipelineStage::Finished));
}

#[test]
fn sources_are_fetched_in_order_with_delays() {
    let mut rsshub = source("rsshub", "/twitter/user/x");
    rsshub.path = None;
    let t = topic(vec![source("rss", "https://a/feed"), source("atom?", "u"), rsshub]);
    let (mut run, a) = PipelineRun::start(t, true, true);
    match a {
        PipelineAction::FetchRss { url } => assert_eq!(url, "https://a/feed"),
        _ => panic!(),
    }
    let a = run.on_fetched(Ok(feed(&["L1", "L2"])));
    assert!(matches!(a, PipelineAction::Wait { secs: 2 }));
    // the unknown source is passed over, after its delay
    let a = run.on_waited();
    assert!(matches!(a, PipelineAction::Wait { secs: 2 }));
    let a = run.on_waited();
    match a {
        PipelineAction::FetchRsshub { base_url, path } => {
            assert_eq!(base_url, "https://rsshub.app");
            assert_eq!(path, "/twitter/user/x");
        }
        _ => panic!(),
    }
    let a = run.on_fetched(Err(AppError::RssParse("down".to_string())));
    assert!(matches!(a, PipelineAction::LoadRecentTitles { days: 2 }));
    let links: Vec<&str> = run.items.iter().map(|i| i.link.as_str()).collect();
    assert_eq!(links, vec!["L1", "L2"]);
}

#[test]
fn nothing_fetched_ends_the_run() {
    let (mut run, _) = PipelineRun::start(topic(vec![source("rss", "u")]), true, true);
    let a = run.on_fetched(Err(AppError::Http("x".to_string())));
    assert!(matches!(a, PipelineAction::Finish(Ok(()))));
}

#[test]
fn repeated_links_are_collected_once() {
    let t = topic(vec![source("rss", "a"), source("rss", "b")]);
    let (mut run, _) = PipelineRun::start(t, true, true);
    run.on_fetched(Ok(feed(&["L1", "L2", "L1"])));
    run.on_waited();
    run.on_fetched(Ok(feed(&["L2", "L3"])));
    let links: Vec<&str> = run.items.iter().map(|i| i.link.as_str()).collect();
    assert_eq!(links, vec!["L1", "L2", "L3"]);
    let mut acc = vec![item("X")];
    merge_items(&mut acc, &vec![item("X"), item("Y")]);
    assert_eq!(acc.len(), 2);
}

#[test]
fn at_most_forty_items_go_on() {
    let links: Vec<String> = (0..45).map(|i| format!("L{}", i)).collect();
    let refs: Vec<&str> = links.iter().map(|s| s.as_str()).collect();
    let (mut run, _) = PipelineRun::start(topic(vec![source("rss", "a")]), true, true);
    run.on_fetched(Ok(feed(&refs)));
    assert_eq!(run.items.len(), 40);
    assert_eq!(run.items[39].link, "L39");
}

#[test]
fn direct_mode_needs_an_api_key() {
    let mut run = fetched_run(true, true);
    let mut ai = agent_ai();
    ai.mode = "direct".to_string();
    match run.on_recent_titles(Ok(Vec::new()), &ai, &discord()) {
        PipelineAction::Finish(Err(AppError::Config(m))) => assert_eq!(m, "API key not configured"),
        _ => panic!(),
    }
    ai.api_key = Some("k".to_string());
    match generation_exec(&ai) {
        PipelineAction::GenerateDirect { api_key, model, base_url } => {
            assert_eq!(api_key, "k");
            assert_eq!(model, "mimo-v2.5");
            assert_eq!(base_url, "https://openrouter.ai/api/v1");
        }
        _ => panic!(),
    }
}

#[test]
fn agent_mode_defaults_and_minimum_timeout() {
    let mut run = fetched_run(true, true);
    match run.on_recent_titles(Err(AppError::Database("locked".to_string())), &agent_ai(), &discord()) {
        PipelineAction::GenerateWithAgent { command, model, timeout_sec } => {
            assert_eq!(command, "omp");
            assert_eq!(model, "mimo-v2.5");
            assert_eq!(timeout_sec, 300);
        }
        _ => panic!(),
    }
    assert!(run.recent_titles.is_empty());
    let mut ai = agent_ai();
    ai.agent_timeout_sec = Some(10);
    match generation_exec(&ai) {
        PipelineAction::GenerateWithAgent { timeout_sec, .. } => assert_eq!(timeout_sec, 30),
        _ => panic!(),
    }
}

#[test]
fn posting_creates_the_thread_and_records_posts() {
    let mut t = topic(vec![source("rss", "a")]);
    t.forum_channel_id = Some("own".to_string());
    let (mut run, _) = PipelineRun::start(t, true, true);
    run.on_fetched(Ok(feed(&["L1"])));
    run.on_recent_titles(Ok(vec!["Old".to_string()]), &agent_ai(), &discord());
    assert_eq!(run.recent_titles, vec!["Old".to_string()]);
    let a = run.on_articles(Ok(vec![article("A1", &["x", "y"]), article("A2", &[])]));
    assert!(matches!(a, PipelineAction::LookupThread));
    match run.on_thread(Ok(None)) {
        PipelineAction::CreateThread { forum_channel_id, name, description } => {
            assert_eq!(forum_channel_id, "own");
            assert_eq!(name, "APEX");
            assert_eq!(description, "\u{1f58a}\u{fe0f} 【APEX】APEX に関するニュースを自動収集・まとめます");
        }
        _ => panic!(),
    }
    match run.on_thread_created(Ok("T9".to_string())) {
        PipelineAction::SaveThread { thread_id } => assert_eq!(thread_id, "T9"),
        _ => panic!(),
    }
    match run.on_thread_saved() {
        PipelineAction::PostArticle { thread_id, title, content, image_url } => {
            assert_eq!(thread_id, "T9");
            assert_eq!(title, "A1");
            assert_eq!(content, "A1 body");
            assert_eq!(image_url.as_deref(), Some("https://img"));
        }
        _ => panic!(),
    }
    match run.on_posted(Ok("M1".to_string())) {
        PipelineAction::RecordPost { title, tags, message_id, thread_id, .. } => {
            assert_eq!(title, "A1");
            assert_eq!(tags.as_deref(), Some("[\"x\",\"y\"]"));
            assert_eq!(message_id, "M1");
            assert_eq!(thread_id, "T9");
        }
        _ => panic!(),
    }
    match run.on_recorded() {
        PipelineAction::PostArticle { title, .. } => assert_eq!(title, "A2"),
        _ => panic!(),
    }
    // a failed post is not recorded
    let a = run.on_posted(Err(AppError::Discord("x".to_string())));
    assert!(matches!(a, PipelineAction::Finish(Ok(()))));
}

#[test]
fn existing_thread_is_reused() {
    let mut run = fetched_run(true, true);
    run.on_recent_titles(Ok(Vec::new()), &agent_ai(), &discord());
    run.on_articles(Ok(vec![article("A1", &[])]));
    match run.on_thread(Ok(Some("T1".to_string()))) {
        PipelineAction::PostArticle { thread_id, .. } => assert_eq!(thread_id, "T1"),
        _ => panic!(),
    }
}

#[test]
fn thread_lookup_failure_stops_the_run() {
    let mut run = fetched_run(true, true);
    run.on_recent_titles(Ok(Vec::new()), &agent_ai(), &discord());
    run.on_articles(Ok(vec![article("A1", &[])]));
    match run.on_thread(Err(AppError::Database("db".to_string()))) {
        PipelineAction::Finish(Err(AppError::Database(m))) => assert_eq!(m, "db"),
        _ => panic!(),
    }
}

#[test]
fn thread_creation_failure_is_a_discord_error() {
    let mut run = fetched_run(true, true);
    run.on_recent_titles(Ok(Vec::new()), &agent_ai(), &discord());
    run.on_articles(Ok(vec![article("A1", &[])]));
    match run.on_thread(Ok(None)) {
        PipelineAction::CreateThread { forum_channel_id, .. } => assert_eq!(forum_channel_id, "global"),
        _ => panic!(),
    }
    match run.on_thread_created(Err(AppError::Discord("403".to_string()))) {
        PipelineAction::Finish(Err(AppError::Discord(m))) => assert_eq!(m, "スレッド作成失敗: 403"),
        _ => panic!(),
    }
}

#[test]
fn without_discord_articles_are_stored() {
    let mut run = fetched_run(false, true);
    run.on_recent_titles(Ok(Vec::new()), &agent_ai(), &discord());
    match run.on_articles(Ok(vec![article("A1", &["t"]), article("A2", &[])])) {
        PipelineAction::StoreArticle { title, tags, .. } => {
            assert_eq!(title, "A1");
            assert_eq!(tags.as_deref(), Some("[\"t\"]"));
        }
        _ => panic!(),
    }
    match run.on_stored() {
        PipelineAction::StoreArticle { title, tags, .. } => {
            assert_eq!(title, "A2");
            assert!(tags.is_none());
        }
        _ => panic!(),
    }
    assert!(matches!(run.on_stored(), PipelineAction::Finish(Ok(()))));
}

#[test]
fn dry_run_and_empty_answers_end_the_run() {
    let mut run = fetched_run(true, false);
    run.on_recent_titles(Ok(Vec::new()), &agent_ai(), &discord());
    assert!(matches!(run.on_articles(Ok(vec![article("A1", &[])])), PipelineAction::Finish(Ok(()))));
    let mut run = fetched_run(true, true);
    run.on_recent_titles(Ok(Vec::new()), &agent_ai(), &discord());
    assert!(matches!(run.on_articles(Ok(Vec::new())), PipelineAction::Finish(Ok(()))));
    let mut run = fetched_run(true, true);
    run.on_recent_titles(Ok(Vec::new()), &agent_ai(), &discord());
    match run.on_articles(Err(AppError::Agent("gone".to_string()))) {
        PipelineAction::Finish(Err(AppError::Agent(m))) => assert_eq!(m, "gone"),
        _ => panic!(),
    }
}

#[test]
fn dry_run_preview_cuts_at_150_chars() {
    let long: String = "あ".repeat(151);
    let p = dry_run_preview(&long);
    assert_eq!(p.chars().count(), 151);
    assert!(p.ends_with('…'));
    assert_eq!(dry_run_preview("short"), "short");
    let exact: String = "x".repeat(150);
    assert_eq!(dry_run_preview(&exact), exact);
}
