use my_quick_feed::ai::agent::{
    agent_command_args, agent_exec_error, agent_timeout_error, build_agent_prompt, command_lookup_invocation,
    compose_agent_prompt, file_argument, format_feed_summary, missing_command_error, prompt_file_name,
    recent_titles_block, select_agent_articles, select_session_articles, session_assistant_text,
};
use my_quick_feed::ai::direct::{
    bearer_header, build_direct_system_message, build_direct_user_message, chat_completions_url,
    choose_direct_article, direct_article_candidates, direct_response_content,
};
use my_quick_feed::ai::{generate_default_prompt, resolve_system_prompt, ArticleListResult, ArticleResult};
use my_quick_feed::config::TopicConfig;
use my_quick_feed::error::AppError;
use my_quick_feed::fetcher::rss::FeedItem;
use my_quick_feed::sessions::prompt_belongs_to_topic;

fn strings(v: &serde_json::Value, key: &str) -> Vec<String> {
    match v.get(key).and_then(|x| x.as_array()) {
        Some(a) => a.iter().filter_map(|s| s.as_str().map(|s| s.to_string())).collect(),
        None => Vec::new(),
    }
}

/// Reads an article the way the application does (title and content required).
fn article_from_json(text: &str) -> Option<ArticleResult> {
    let v: serde_json::Value = serde_json::from_str(text).ok()?;
    Some(ArticleResult {
        title: v.get("title")?.as_str()?.to_string(),
        content: v.get("content")?.as_str()?.to_string(),
        image_url: v.get("image_url").and_then(|u| u.as_str()).map(|u| u.to_string()),
        sources: strings(&v, "sources"),
        tags: strings(&v, "tags"),
    })
}

fn parse_direct_response(content: &str) -> ArticleResult {
    let (trimmed, block) = direct_article_candidates(content);
    let whole = article_from_json(&trimmed);
    let from_block = block.as_deref().and_then(article_from_json);
    choose_direct_article(&trimmed, whole, from_block)
}

#[test]
fn test_parse_direct_valid_json() {
    let content = r#"{"title":"Test","content":"Body","image_url":null,"sources":["A"]}"#;
    let result = parse_direct_response(content);
    assert_eq!(result.title, "Test");
}

#[test]
fn test_parse_direct_json_in_markdown() {
    let content = "```json\n{\"title\":\"Test\",\"content\":\"Body\",\"image_url\":null,\"sources\":[\"A\"]}\n```";
    let result = parse_direct_response(content);
    assert_eq!(result.title, "Test");
}

#[test]
fn direct_answer_without_json_becomes_fallback_article() {
    let result = parse_direct_response("  just prose  ");
    assert_eq!(result.title, "Generated Article");
    assert_eq!(result.content, "just prose");
    assert!(result.image_url.is_none());
    assert!(result.sources.is_empty());
}

#[test]
fn direct_candidates_trim_and_take_braces() {
    let (t, b) = direct_article_candidates("  x {\"a\":1} y }  ");
    assert_eq!(t, "x {\"a\":1} y }");
    assert_eq!(b.as_deref(), Some("{\"a\":1} y }"));
    let (_, none) = direct_article_candidates("} {");
    assert!(none.is_none());
}

#[test]
fn direct_request_parts() {
    assert_eq!(chat_completions_url("https://openrouter.ai/api/v1/"), "https://openrouter.ai/api/v1/v1/chat/completions");
    assert_eq!(bearer_header("k"), "Bearer k");
    let topic = topic_named("APEX");
    let sys = build_direct_system_message(&topic);
    assert!(sys.starts_with("与えられた情報源から収集した情報を基に"));
    assert!(sys.ends_with("sources (文字列の配列)"));
    let items = vec![item("T1", "L1", None), item("T2", "L2", Some("d"))];
    assert_eq!(
        build_direct_user_message(&topic, &items),
        "以下の情報源からトピック「APEX」に関するニュース記事をjaで生成してください。\n\n- T1\n  Link: L1\n- T2\n  Link: L2"
    );
}

#[test]
fn direct_response_errors() {
    match direct_response_content(500, "500 Internal Server Error", "boom") {
        Err(AppError::Api(m)) => assert_eq!(m, "API returned 500 Internal Server Error: boom"),
        _ => panic!(),
    }
    match direct_response_content(200, "200 OK", "not json") {
        Err(AppError::Http(m)) => assert_eq!(m, "error decoding response body"),
        _ => panic!(),
    }
    match direct_response_content(200, "200 OK", "{\"choices\":[]}") {
        Err(AppError::Api(m)) => assert_eq!(m, "No content in API response"),
        _ => panic!(),
    }
    match direct_response_content(200, "200 OK", "{\"choices\":{\"0\":{\"message\":{\"content\":\"hi\"}}}}") {
        Err(AppError::Api(m)) => assert_eq!(m, "No content in API response"),
        _ => panic!(),
    }
    let ok = direct_response_content(200, "200 OK", "{\"choices\":[{\"message\":{\"content\":\"hi\"}}]}");
    assert_eq!(ok.ok().as_deref(), Some("hi"));
}

fn topic_named(name: &str) -> TopicConfig {
    TopicConfig {
        name: name.to_string(),
        language: None,
        interval_min: 60,
        sources: Vec::new(),
        system_prompt: None,
        image_search_enabled: None,
        research_enabled: None,
        forum_channel_id: None,
        reference_urls: Vec::new(),
        reference_mode: None,
    }
}

fn item(title: &str, link: &str, desc: Option<&str>) -> FeedItem {
    FeedItem {
        title: title.to_string(),
        link: link.to_string(),
        description: desc.map(|d| d.to_string()),
        pub_date: None,
        guid: None,
    }
}

#[test]
fn custom_prompt_wins_over_template() {
    assert_eq!(resolve_system_prompt("APEX", "ja", Some("custom")), "custom");
    assert_eq!(resolve_system_prompt("APEX", "ja", None), generate_default_prompt("APEX", "ja"));
}

#[test]
fn default_prompts_per_language() {
    let ja = generate_default_prompt("APEX", "ja");
    assert!(ja.starts_with("あなたはAPEXに関するニュース記事をまとめるアシスタントです。"));
    assert!(ja.contains("【APEX】"));
    let en = generate_default_prompt("APEX", "en");
    assert!(en.starts_with("You are"));
    assert!(en.contains("APEX"));
    let other = generate_default_prompt("APEX", "fr");
    assert!(other.contains("APEX"));
    assert_ne!(other, en);
}

#[test]
fn feed_summary_lines() {
    let items = vec![item("T1", "L1", Some("D1")), item("T2", "L2", None)];
    assert_eq!(format_feed_summary(&items), "- T1\n  D1\n  Link: L1\n- T2\n  Link: L2");
    assert_eq!(format_feed_summary(&Vec::new()), "");
}

#[test]
fn recent_titles_listing() {
    assert_eq!(recent_titles_block(&Vec::new()), "（なし）");
    assert_eq!(recent_titles_block(&vec!["A".to_string(), "B".to_string()]), "- A\n- B");
}

#[test]
fn agent_prompt_names_topic_and_is_recognised() {
    let mut topic = topic_named("APEX");
    topic.language = Some("en".to_string());
    let items = vec![item("T1", "L1", None)];
    let prompt = build_agent_prompt(&topic, "mimo-v2.5", &items, &vec!["Old".to_string()]);
    assert!(prompt.starts_with("あなたはニュース記事を生成するアシスタントです。\n\n## トピック\nAPEX\n\n## 言語\nen\n\n## 使用モデル\nmimo-v2.5"));
    assert!(prompt.contains("## 既に投稿済みのトピック（重複防止用）\n- Old\n"));
    assert!(prompt.contains("## 元記事\n- T1\n  Link: L1"));
    assert!(prompt_belongs_to_topic(&prompt, "APEX"));
    assert!(!prompt_belongs_to_topic(&prompt, "APE"));
    let composed = compose_agent_prompt("t", "l", "m", "r", "s", "x");
    assert!(composed.contains("## システム指示\ns\n\n## 元記事\nx\n\n## 出力形式"));
}

#[test]
fn agent_invocation_parts() {
    assert_eq!(agent_command_args("default", "@f"), vec!["-p", "@f"]);
    assert_eq!(agent_command_args("", "@f"), vec!["-p", "@f"]);
    assert_eq!(agent_command_args("gpt", "@f"), vec!["-p", "--model", "gpt", "@f"]);
    let m = agent_command_args("mimo-v2.5", "@f");
    assert_eq!(m.len(), 6);
    assert_eq!(m[3], "--append-system-prompt");
    assert_eq!(file_argument("C:/p.txt"), "@C:/p.txt");
    assert_eq!(command_lookup_invocation("omp", true), vec!["cmd", "/c", "where", "omp"]);
    assert_eq!(command_lookup_invocation("omp", false), vec!["which", "omp"]);
    assert_eq!(prompt_file_name("a/b:c", 42), "a_b_c-42.txt");
}

#[test]
fn agent_errors() {
    match missing_command_error("omp", true) {
        AppError::Agent(m) => assert_eq!(
            m,
            "omp が見つかりません。npm install -g oh-my-pi-cli 等でインストールしてください。\n  Detail: 'omp' not found on PATH"
        ),
        _ => panic!(),
    }
    match agent_timeout_error(300) {
        AppError::Timeout(m) => assert_eq!(m, "Agent timed out after 300s"),
        _ => panic!(),
    }
    match agent_exec_error("x") {
        AppError::Agent(m) => assert_eq!(m, "omp exec failed: x"),
        _ => panic!(),
    }
}

fn art(title: &str) -> ArticleResult {
    ArticleResult {
        title: title.to_string(),
        content: "c".to_string(),
        image_url: None,
        sources: Vec::new(),
        tags: Vec::new(),
    }
}

#[test]
fn agent_article_selection_order() {
    let r = select_agent_articles("out", Some(vec![art("A")]), None, None, Some(art("S")), None).unwrap();
    assert_eq!(r[0].title, "A");
    let r = select_agent_articles(
        "out",
        Some(Vec::new()),
        Some(ArticleListResult { articles: vec![art("W")] }),
        None,
        None,
        None,
    )
    .unwrap();
    assert_eq!(r[0].title, "W");
    let r = select_agent_articles("out", None, None, Some(Vec::new()), Some(art("S")), None).unwrap();
    assert_eq!(r.len(), 1);
    assert_eq!(r[0].title, "S");
    let r = select_agent_articles("out", None, None, None, None, Some(vec![art("X")])).unwrap();
    assert_eq!(r[0].title, "X");
    match select_agent_articles("no json here", None, None, None, None, None) {
        Err(AppError::Agent(m)) => assert_eq!(m, "Could not extract articles. Preview: no json here"),
        _ => panic!(),
    }
    let s = select_session_articles(None, Some(Vec::new()), Some(art("One"))).unwrap();
    assert_eq!(s[0].title, "One");
    assert!(select_session_articles(None, None, None).is_none());
    assert!(select_session_articles(Some(Vec::new()), Some(Vec::new()), None).unwrap().is_empty());
    assert!(select_session_articles(None, Some(Vec::new()), None).is_none());
}

#[test]
fn an_empty_list_means_no_articles() {
    let r = select_agent_articles("[]", Some(Vec::new()), None, Some(Vec::new()), None, None).unwrap();
    assert!(r.is_empty());
    let r = select_agent_articles(
        "{\"articles\": []}",
        None,
        Some(ArticleListResult { articles: Vec::new() }),
        Some(Vec::new()),
        None,
        None,
    )
    .unwrap();
    assert!(r.is_empty());
    // an empty list somewhere inside other text is no answer
    match select_agent_articles("oops {\"sources\": []", None, None, Some(Vec::new()), None, None) {
        Err(AppError::Agent(m)) => assert_eq!(m, "Could not extract articles. Preview: oops {\"sources\": []"),
        _ => panic!(),
    }
}

#[test]
fn session_protocol_text_is_collected() {
    let out = "{\"type\":\"message_stop\",\"message\":{\"content\":[{\"text\":\"[{\\\"a\\\"\"},{\"x\":1},{\"text\":\":1}]\"}]}}\nnoise\n{\"type\":\"other\"}";
    assert_eq!(session_assistant_text(out).as_deref(), Some("[{\"a\":1}]"));
    assert!(session_assistant_text("plain text").is_none());
}
