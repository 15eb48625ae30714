//! Agent mode: the prompt handed to the agent CLI, its command line, and
//! what is made of its output.
use vstd::prelude::*;
use vstd::string::*;
use crate::ai::{resolve_system_prompt, system_prompt_of, ArticleListResult, ArticleResult};
use crate::config::TopicConfig;
use crate::error::AppError;
use crate::fetcher::rss::FeedItem;
use crate::fetcher::xml::opt_str;
use crate::json::{item_pointer, item_pointer_exec, json_array_len, json_array_len_at, json_str, json_str_at};
use crate::text::{
    chars_of, contains, contains_exec, decimal, join, lemma_join_push, lemma_trim_bounds,
    starts_with, starts_with_exec, str_eq, str_lines, take_chars, take_chars_exec, trim, trim_exec,
    u64_decimal, views, lines_of, push_char,
};

verus! {

/// The summary line(s) of one feed item: `- title`, the description on its
/// own indented line when there is one, then `  Link: link`.
pub open spec fn item_summary(item: FeedItem) -> Seq<char> {
    "- "@ + item.title@ + match item.description {
        Some(d) => "\n  "@ + d@,
        None => Seq::empty(),
    } + "\n  Link: "@ + item.link@
}

/// The summaries of all items, one after another, separated by newlines.
pub open spec fn feed_summary(items: Seq<FeedItem>) -> Seq<char> {
    join(items.map_values(|i: FeedItem| item_summary(i)), "\n"@)
}

fn item_summary_exec(item: &FeedItem) -> (r: String)
    ensures
        r@ == item_summary(*item),
{
    let mut r = String::from_str("- ");
    r.append(item.title.as_str());
    match &item.description {
        Some(d) => {
            r.append("\n  ");
            r.append(d.as_str());
        },
        None => {},
    }
    r.append("\n  Link: ");
    r.append(item.link.as_str());
    r
}

/// Lists the feed items for a prompt.
pub fn format_feed_summary(items: &Vec<FeedItem>) -> (r: String)
    ensures
        r@ == feed_summary(items@),
{
    let mut r = String::new();
    let mut i: usize = 0;
    while i < items.len()
        invariant
            i <= items@.len(),
            r@ == feed_summary(items@.take(i as int)),
        decreases items@.len() - i,
    {
        let line = item_summary_exec(&items[i]);
        proof {
            let parts = items@.take(i as int).map_values(|it: FeedItem| item_summary(it));
            lemma_join_push(parts, "\n"@, item_summary(items@[i as int]));
            assert(items@.take(i + 1).map_values(|it: FeedItem| item_summary(it)) =~= parts.push(item_summary(items@[i as int])));
        }
        if i > 0 {
            r.append("\n");
        }
        r.append(line.as_str());
        i += 1;
    }
    assert(items@.take(items@.len() as int) =~= items@);
    r
}

/// The already-posted titles for a prompt: `- title` lines, or `（なし）`.
pub open spec fn recent_block(titles: Seq<Seq<char>>) -> Seq<char> {
    if titles.len() == 0 {
        "（なし）"@
    } else {
        join(titles.map_values(|t: Seq<char>| "- "@ + t), "\n"@)
    }
}

/// Lists the recently posted titles for a prompt.
pub fn recent_titles_block(titles: &Vec<String>) -> (r: String)
    ensures
        r@ == recent_block(views(titles@)),
{
    if titles.len() == 0 {
        return String::from_str("（なし）");
    }
    let mut r = String::new();
    let mut i: usize = 0;
    while i < titles.len()
        invariant
            0 < titles@.len(),
            i <= titles@.len(),
            r@ == join(views(titles@.take(i as int)).map_values(|t: Seq<char>| "- "@ + t), "\n"@),
        decreases titles@.len() - i,
    {
        proof {
            let parts = views(titles@.take(i as int)).map_values(|t: Seq<char>| "- "@ + t);
            lemma_join_push(parts, "\n"@, "- "@ + titles@[i as int]@);
            assert(views(titles@.take(i + 1)).map_values(|t: Seq<char>| "- "@ + t) =~= parts.push("- "@ + titles@[i as int]@));
        }
        if i > 0 {
            r.append("\n");
        }
        r.append("- ");
        r.append(titles[i].as_str());
        i += 1;
    }
    assert(titles@.take(titles@.len() as int) =~= titles@);
    r
}

/// The text opening an agent prompt, before the topic name.
pub open spec fn prompt_head() -> Seq<char> {
    "あなたはニュース記事を生成するアシスタントです。\n\n## トピック\n"@
}

/// The whole agent prompt: topic, language, model, the titles already
/// posted (to avoid repeating them), the system instructions, the source
/// articles, and the required output format (a JSON array of articles).
pub open spec fn agent_prompt(
    topic_name: Seq<char>,
    language: Seq<char>,
    model: Seq<char>,
    recent: Seq<char>,
    system: Seq<char>,
    summary: Seq<char>,
) -> Seq<char> {
    prompt_head() + topic_name + "\n\n## 言語\n"@ + language + "\n\n## 使用モデル\n"@ + model
        + "\n\n## 既に投稿済みのトピック（重複防止用）\n"@ + recent + "\n\n## システム指示\n"@ + system
        + "\n\n## 元記事\n"@ + summary + prompt_tail()
}

/// The output-format section closing an agent prompt.
pub open spec fn prompt_tail() -> Seq<char> {
    "\n\n## 出力形式\n注目すべきニュースそれぞれに対して記事を生成し、JSON配列で出力してください。\n既に投稿済みのトピックと内容が完全に重複する場合はスキップしてください。\nJSON以外の出力は絶対に含めないでください。\n[\n  {\n    \"title\": \"記事タイトル\",\n    \"content\": \"記事本文（300字程度）\",\n    \"image_url\": \"関連画像URL（あれば）\",\n    \"tags\": [\"タグ1\", \"タグ2\"],\n    \"sources\": [\"出典1\", \"出典2\"]\n  }\n]\n重要でない記事はスキップして構いません。"@
}

/// Assembles an agent prompt from its parts.
pub fn compose_agent_prompt(
    topic_name: &str,
    language: &str,
    model: &str,
    recent: &str,
    system: &str,
    summary: &str,
) -> (r: String)
    ensures
        r@ == agent_prompt(topic_name@, language@, model@, recent@, system@, summary@),
{
    let mut r = String::from_str("あなたはニュース記事を生成するアシスタントです。\n\n## トピック\n");
    r.append(topic_name);
    r.append("\n\n## 言語\n");
    r.append(language);
    r.append("\n\n## 使用モデル\n");
    r.append(model);
    r.append("\n\n## 既に投稿済みのトピック（重複防止用）\n");
    r.append(recent);
    r.append("\n\n## システム指示\n");
    r.append(system);
    r.append("\n\n## 元記事\n");
    r.append(summary);
    r.append("\n\n## 出力形式\n注目すべきニュースそれぞれに対して記事を生成し、JSON配列で出力してください。\n既に投稿済みのトピックと内容が完全に重複する場合はスキップしてください。\nJSON以外の出力は絶対に含めないでください。\n[\n  {\n    \"title\": \"記事タイトル\",\n    \"content\": \"記事本文（300字程度）\",\n    \"image_url\": \"関連画像URL（あれば）\",\n    \"tags\": [\"タグ1\", \"タグ2\"],\n    \"sources\": [\"出典1\", \"出典2\"]\n  }\n]\n重要でない記事はスキップして構いません。");
    r
}

/// The article language of a topic (`ja` when none is set).
pub open spec fn topic_language(topic: TopicConfig) -> Seq<char> {
    match topic.language {
        Some(l) => l@,
        None => "ja"@,
    }
}

/// Exec [`topic_language`].
pub fn topic_language_exec(topic: &TopicConfig) -> (r: String)
    ensures
        r@ == topic_language(*topic),
{
    match &topic.language {
        Some(l) => l.clone(),
        None => String::from_str("ja"),
    }
}

/// The agent prompt of a topic for the given feed items and recent titles.
pub open spec fn topic_agent_prompt(
    topic: TopicConfig,
    model: Seq<char>,
    items: Seq<FeedItem>,
    recent_titles: Seq<Seq<char>>,
) -> Seq<char> {
    let language = topic_language(topic);
    agent_prompt(
        topic.name@,
        language,
        model,
        recent_block(recent_titles),
        system_prompt_of(topic.name@, language, opt_str(topic.system_prompt)),
        feed_summary(items),
    )
}

/// Builds the agent prompt of a topic.
pub fn build_agent_prompt(
    topic: &TopicConfig,
    model: &str,
    feed_items: &Vec<FeedItem>,
    recent_titles: &Vec<String>,
) -> (r: String)
    ensures
        r@ == topic_agent_prompt(*topic, model@, feed_items@, views(recent_titles@)),
{
    let language = topic_language_exec(topic);
    let custom: Option<&str> = match &topic.system_prompt {
        Some(p) => Some(p.as_str()),
        None => None,
    };
    let system = resolve_system_prompt(topic.name.as_str(), language.as_str(), custom);
    let recent = recent_titles_block(recent_titles);
    let summary = format_feed_summary(feed_items);
    compose_agent_prompt(
        topic.name.as_str(),
        language.as_str(),
        model,
        recent.as_str(),
        system.as_str(),
        summary.as_str(),
    )
}

/// A character that cannot stand in a Windows file name.
pub open spec fn unsafe_file_char(c: char) -> bool {
    c == '\\' || c == '/' || c == ':' || c == '*' || c == '?' || c == '"' || c == '<' || c == '>' || c == '|'
}

/// The topic name with every character that cannot stand in a file name
/// replaced by `_`.
pub open spec fn safe_file_stem(name: Seq<char>) -> Seq<char> {
    name.map_values(|c: char| if unsafe_file_char(c) { '_' } else { c })
}

/// Name of the prompt file of a topic, unique per start time:
/// `<safe topic name>-<milliseconds>.txt`.
pub open spec fn prompt_file_name_of(topic_name: Seq<char>, millis: nat) -> Seq<char> {
    safe_file_stem(topic_name) + "-"@ + decimal(millis) + ".txt"@
}

/// Builds the prompt file name of a topic.
pub fn prompt_file_name(topic_name: &str, millis: u64) -> (r: String)
    ensures
        r@ == prompt_file_name_of(topic_name@, millis as nat),
{
    let v = chars_of(topic_name);
    let mut r = String::new();
    let mut i: usize = 0;
    while i < v.len()
        invariant
            v@ == topic_name@,
            i <= v@.len(),
            r@ == safe_file_stem(v@.take(i as int)),
        decreases v@.len() - i,
    {
        let c = v[i];
        let d = if c == '\\' || c == '/' || c == ':' || c == '*' || c == '?' || c == '"' || c == '<'
            || c == '>' || c == '|' {
            '_'
        } else {
            c
        };
        push_char(&mut r, d);
        assert(safe_file_stem(v@.take(i + 1)) =~= safe_file_stem(v@.take(i as int)).push(d));
        i += 1;
    }
    assert(v@.take(v@.len() as int) =~= v@);
    r.append("-");
    let m = u64_decimal(millis);
    r.append(m.as_str());
    r.append(".txt");
    r
}

/// The instruction given to chat-oriented models (`mimo`) so that they carry
/// out the task instead of asking back.
pub open spec fn task_instruction() -> Seq<char> {
    "あなたはタスク実行エージェントです。ユーザーが渡したファイルや指示は実行すべきタスクです。指示に従って実行し、要求された出力のみを返してください。ユーザーに確認したり質問したりしないでください。"@
}

/// The agent's arguments: `-p`, then `--model <model>` unless the model is
/// empty or `default`, then the task instruction for `mimo` models, then the
/// prompt (or `@file`).
pub open spec fn agent_args(model: Seq<char>, target: Seq<char>) -> Seq<Seq<char>> {
    seq!["-p"@]
        + (if model.len() > 0 && model != "default"@ { seq!["--model"@, model] } else { Seq::empty() })
        + (if contains(model, "mimo"@) { seq!["--append-system-prompt"@, task_instruction()] } else { Seq::empty() })
        + seq![target]
}

/// Builds the agent's command-line arguments.
pub fn agent_command_args(model: &str, target: &str) -> (r: Vec<String>)
    ensures
        views(r@) == agent_args(model@, target@),
{
    let mut r: Vec<String> = Vec::new();
    r.push(String::from_str("-p"));
    let ghost a = views(r@);
    if !model.is_empty() && !str_eq(model, "default") {
        r.push(String::from_str("--model"));
        r.push(String::from_str(model));
    }
    let ghost b = views(r@);
    if contains_exec(model, "mimo") {
        r.push(String::from_str("--append-system-prompt"));
        r.push(String::from_str("あなたはタスク実行エージェントです。ユーザーが渡したファイルや指示は実行すべきタスクです。指示に従って実行し、要求された出力のみを返してください。ユーザーに確認したり質問したりしないでください。"));
    }
    r.push(String::from_str(target));
    assert(views(r@) =~= agent_args(model@, target@));
    r
}

/// The argument naming the prompt file: `@<path>`.
pub fn file_argument(path: &str) -> (r: String)
    ensures
        r@ == "@"@ + path@,
{
    let mut r = String::from_str("@");
    r.append(path);
    r
}

/// The command that checks the agent CLI is installed: `cmd /c where <cmd>`
/// on Windows, `which <cmd>` elsewhere.
pub fn command_lookup_invocation(command: &str, windows: bool) -> (r: Vec<String>)
    ensures
        windows ==> views(r@) == seq!["cmd"@, "/c"@, "where"@, command@],
        !windows ==> views(r@) == seq!["which"@, command@],
{
    let mut r: Vec<String> = Vec::new();
    if windows {
        r.push(String::from_str("cmd"));
        r.push(String::from_str("/c"));
        r.push(String::from_str("where"));
    } else {
        r.push(String::from_str("which"));
    }
    r.push(String::from_str(command));
    assert(windows ==> views(r@) =~= seq!["cmd"@, "/c"@, "where"@, command@]);
    assert(!windows ==> views(r@) =~= seq!["which"@, command@]);
    r
}

/// The error when the agent CLI is missing: how to install it, and why the
/// check failed (`'<cmd>' not found on PATH` when the lookup ran and failed,
/// `Failed to check '<cmd>'` when it could not run).
pub fn missing_command_error(command: &str, lookup_ran: bool) -> (r: AppError)
    ensures
        r matches AppError::Agent(m) && m@ == command@
            + " が見つかりません。npm install -g oh-my-pi-cli 等でインストールしてください。\n  Detail: "@
            + if lookup_ran { "'"@ + command@ + "' not found on PATH"@ } else { "Failed to check '"@ + command@ + "'"@ },
{
    let mut m = String::from_str(command);
    m.append(" が見つかりません。npm install -g oh-my-pi-cli 等でインストールしてください。\n  Detail: ");
    if lookup_ran {
        m.append("'");
        m.append(command);
        m.append("' not found on PATH");
    } else {
        m.append("Failed to check '");
        m.append(command);
        m.append("'");
    }
    AppError::Agent(m)
}

/// The error when the agent did not finish in time.
pub fn agent_timeout_error(timeout_sec: u64) -> (r: AppError)
    ensures
        r matches AppError::Timeout(m) && m@ == "Agent timed out after "@ + decimal(timeout_sec as nat) + "s"@,
{
    let mut m = String::from_str("Agent timed out after ");
    let d = u64_decimal(timeout_sec);
    m.append(d.as_str());
    m.append("s");
    AppError::Timeout(m)
}

/// The error when the agent process could not be run.
pub fn agent_exec_error(detail: &str) -> (r: AppError)
    ensures
        r matches AppError::Agent(m) && m@ == "omp exec failed: "@ + detail@,
{
    let mut m = String::from_str("omp exec failed: ");
    m.append(detail);
    AppError::Agent(m)
}

// ---------------------------------------------------------------- output

/// The pointer of the text of block `j` of a session message.
pub open spec fn block_text_pointer(j: nat) -> Seq<char> {
    item_pointer("/message/content"@, j, "text"@)
}

/// The text of the first `n` content blocks of a session line (a block
/// without a string `text` adds nothing).
pub open spec fn blocks_text(line: Seq<char>, n: nat) -> Seq<char>
    decreases n,
{
    if n == 0 {
        Seq::empty()
    } else {
        blocks_text(line, (n - 1) as nat) + match json_str(line, block_text_pointer((n - 1) as nat)) {
            Some(t) => t,
            None => Seq::empty(),
        }
    }
}

/// The assistant text a session line carries: a `message_stop` record
/// contributes the texts of its content blocks; any other line nothing.
pub open spec fn session_line_text(line: Seq<char>) -> Seq<char> {
    let t = trim(line);
    if starts_with(t, "{"@) && json_str(t, "/type"@) == Some("message_stop"@) {
        match json_array_len(t, "/message/content"@) {
            Some(n) => blocks_text(t, n),
            None => Seq::empty(),
        }
    } else {
        Seq::empty()
    }
}

/// The assistant text of session lines, in order.
pub open spec fn session_lines_text(lines: Seq<Seq<char>>) -> Seq<char>
    decreases lines.len(),
{
    if lines.len() == 0 {
        Seq::empty()
    } else {
        session_lines_text(lines.drop_last()) + session_line_text(lines.last())
    }
}

/// The assistant text of session lines is the texts of all their
/// `message_stop` records in order: the text of a run of lines followed by
/// more lines is the text of the first run followed by the text of the rest.
pub proof fn session_text_concatenates(a: Seq<Seq<char>>, b: Seq<Seq<char>>)
    ensures
        session_lines_text(a + b) == session_lines_text(a) + session_lines_text(b),
    decreases b.len(),
{
    if b.len() == 0 {
        assert(a + b =~= a);
        assert(session_lines_text(a) + Seq::<char>::empty() =~= session_lines_text(a));
    } else {
        session_text_concatenates(a, b.drop_last());
        assert((a + b).drop_last() =~= a + b.drop_last());
        assert((a + b).last() == b.last());
        assert(session_lines_text(a + b) =~= session_lines_text(a) + session_lines_text(b));
    }
}

/// The assistant text of agent output in the session protocol (JSON lines);
/// `None` when there is none.
pub open spec fn session_text(output: Seq<char>) -> Option<Seq<char>> {
    let t = session_lines_text(str_lines(output));
    if t.len() == 0 { None } else { Some(t) }
}

fn session_line_text_exec(line: &str) -> (r: String)
    ensures
        r@ == session_line_text(line@),
{
    let lv = chars_of(line);
    let t = trim_exec(lv.as_slice());
    let tv = chars_of(t.as_str());
    let brace = chars_of("{");
    if !starts_with_exec(tv.as_slice(), brace.as_slice()) {
        return String::new();
    }
    let kind = json_str_at(t.as_str(), "/type");
    let is_stop = match &kind {
        Some(k) => str_eq(k.as_str(), "message_stop"),
        None => false,
    };
    if !is_stop {
        return String::new();
    }
    match json_array_len_at(t.as_str(), "/message/content") {
        Some(n) => {
            let mut r = String::new();
            let mut j: usize = 0;
            while j < n
                invariant
                    j <= n,
                    r@ == blocks_text(t@, j as nat),
                decreases n - j,
            {
                let p = item_pointer_exec("/message/content", j, "text");
                match json_str_at(t.as_str(), p.as_str()) {
                    Some(s) => r.append(s.as_str()),
                    None => {},
                }
                j += 1;
            }
            r
        },
        None => String::new(),
    }
}

/// Collects the assistant text of agent output in the session protocol.
pub fn session_assistant_text(output: &str) -> (r: Option<String>)
    ensures
        match session_text(output@) {
            Some(t) => r matches Some(s) && s@ == t,
            None => r is None,
        },
{
    let lines = lines_of(output);
    let mut text = String::new();
    let mut i: usize = 0;
    while i < lines.len()
        invariant
            i <= lines@.len(),
            views(lines@) == str_lines(output@),
            text@ == session_lines_text(views(lines@).take(i as int)),
        decreases lines@.len() - i,
    {
        let part = session_line_text_exec(lines[i].as_str());
        assert(views(lines@).take(i + 1).drop_last() =~= views(lines@).take(i as int));
        text.append(part.as_str());
        i += 1;
    }
    assert(views(lines@).take(lines@.len() as int) =~= views(lines@));
    if text.as_str().is_empty() {
        None
    } else {
        Some(text)
    }
}

/// The articles found in session text: the bracketed list when it parsed
/// and is not empty, else the braced single article when it parsed, else
/// no articles when the whole text is an empty list (the agent chose to
/// write none).
pub fn select_session_articles(
    whole_list: Option<Vec<ArticleResult>>,
    span_list: Option<Vec<ArticleResult>>,
    span_single: Option<ArticleResult>,
) -> (r: Option<Vec<ArticleResult>>)
    ensures
        match span_list {
            Some(l) if l@.len() > 0 => r == Some(l),
            _ => match span_single {
                Some(a) => r matches Some(v) && v@ == seq![a],
                None => match whole_list {
                    Some(w) if w@.len() == 0 => r == Some(w),
                    _ => r is None,
                },
            },
        },
{
    match span_list {
        Some(l) => {
            if l.len() > 0 {
                return Some(l);
            }
        },
        None => {},
    }
    match span_single {
        Some(a) => {
            let mut v: Vec<ArticleResult> = Vec::new();
            v.push(a);
            assert(v@ =~= seq![a]);
            Some(v)
        },
        None => match whole_list {
            Some(w) => {
                if w.len() == 0 {
                    Some(w)
                } else {
                    None
                }
            },
            None => None,
        },
    }
}

/// The error when no articles could be found in the agent output: it
/// quotes the first 300 characters of the output.
pub open spec fn extraction_error_message(stdout: Seq<char>) -> Seq<char> {
    "Could not extract articles. Preview: "@ + take_chars(stdout, 300)
}

/// Picks the articles of the agent output, trying in order: the whole
/// output as a list, the whole output as `{"articles": [...]}`, the text
/// from the first `[` to the last `]` as a list (each only when not empty),
/// the text from the first `{` to the last `}` as one article, and the
/// assistant text of the session protocol. When none of these gives an
/// article but the whole output is an empty list (or `{"articles": []}`),
/// the agent chose to write none and no articles are returned. The caller
/// passes what each candidate parsed to (`None` when it did not parse).
pub fn select_agent_articles(
    stdout: &str,
    whole_list: Option<Vec<ArticleResult>>,
    whole_wrapped: Option<ArticleListResult>,
    span_list: Option<Vec<ArticleResult>>,
    span_single: Option<ArticleResult>,
    from_session: Option<Vec<ArticleResult>>,
) -> (r: Result<Vec<ArticleResult>, AppError>)
    ensures
        match (whole_list, whole_wrapped, span_list, span_single, from_session) {
            (Some(l), _, _, _, _) if l@.len() > 0 => r == Ok::<Vec<ArticleResult>, AppError>(l),
            (_, Some(w), _, _, _) if w.articles@.len() > 0 => r == Ok::<Vec<ArticleResult>, AppError>(w.articles),
            (_, _, Some(l), _, _) if l@.len() > 0 => r == Ok::<Vec<ArticleResult>, AppError>(l),
            (_, _, _, Some(a), _) => r matches Ok(v) && v@ == seq![a],
            (_, _, _, _, Some(s)) => r == Ok::<Vec<ArticleResult>, AppError>(s),
            (Some(l), _, _, _, _) => r == Ok::<Vec<ArticleResult>, AppError>(l),
            (_, Some(w), _, _, _) => r == Ok::<Vec<ArticleResult>, AppError>(w.articles),
            _ => r matches Err(AppError::Agent(m)) && m@ == extraction_error_message(stdout@),
        },
{
    let whole_len: Option<usize> = match &whole_list {
        Some(l) => Some(l.len()),
        None => None,
    };
    let wrapped_len: Option<usize> = match &whole_wrapped {
        Some(w) => Some(w.articles.len()),
        None => None,
    };
    if matches!(whole_len, Some(n) if n > 0) {
        return match whole_list {
            Some(l) => Ok(l),
            None => Ok(Vec::new()),
        };
    }
    if matches!(wrapped_len, Some(n) if n > 0) {
        return match whole_wrapped {
            Some(w) => Ok(w.articles),
            None => Ok(Vec::new()),
        };
    }
    match span_list {
        Some(l) => {
            if l.len() > 0 {
                return Ok(l);
            }
        },
        None => {},
    }
    match span_single {
        Some(a) => {
            let mut v: Vec<ArticleResult> = Vec::new();
            v.push(a);
            assert(v@ =~= seq![a]);
            return Ok(v);
        },
        None => {},
    }
    match from_session {
        Some(s) => Ok(s),
        None => match whole_list {
            Some(l) => Ok(l),
            None => match whole_wrapped {
                Some(w) => Ok(w.articles),
                None => {
                    let v = chars_of(stdout);
                    let mut m = String::from_str("Could not extract articles. Preview: ");
                    let p = take_chars_exec(v.as_slice(), 300);
                    m.append(p.as_str());
                    Err(AppError::Agent(m))
                },
            },
        },
    }
}

} // verus!
