//! Direct mode: a chat-completions request and what is made of its answer.
use vstd::prelude::*;
use vstd::string::*;
use crate::ai::agent::{topic_language, topic_language_exec};
use crate::ai::ArticleResult;
use crate::config::TopicConfig;
use crate::error::AppError;
use crate::fetcher::rss::FeedItem;
use crate::json::{json_array_len, json_array_len_at, json_has, json_str, json_str_at, json_value_at};
use crate::text::{
    char_run_start, char_run_start_exec, chars_of, delimited, delimited_span, join, lemma_join_push,
    string_of_range, take_chars, take_chars_exec, trim, trim_end_char, trim_exec,
};

verus! {

/// System prompt used when the topic has none.
pub open spec fn default_direct_prompt() -> Seq<char> {
    "与えられた情報源から収集した情報を基に、簡潔なニュース記事を生成してください。出典を明記し、複数のソースを統合する場合はその旨も記載してください。"@
}

/// The endpoint: the base URL without trailing `/`, then `/v1/chat/completions`.
pub open spec fn chat_url(base_url: Seq<char>) -> Seq<char> {
    trim_end_char(base_url, '/') + "/v1/chat/completions"@
}

/// Builds the chat-completions endpoint.
pub fn chat_completions_url(base_url: &str) -> (r: String)
    ensures
        r@ == chat_url(base_url@),
{
    let v = chars_of(base_url);
    let e = char_run_start_exec(v.as_slice(), '/');
    let mut r = string_of_range(v.as_slice(), 0, e);
    assert(v@.subrange(0, e as int) =~= trim_end_char(base_url@, '/'));
    r.append("/v1/chat/completions");
    r
}

/// The `Authorization` header value for an API key.
pub fn bearer_header(api_key: &str) -> (r: String)
    ensures
        r@ == "Bearer "@ + api_key@,
{
    let mut r = String::from_str("Bearer ");
    r.append(api_key);
    r
}

/// The system message: the topic's prompt (or the default one), then the
/// required JSON fields.
pub open spec fn direct_system_message(topic: TopicConfig) -> Seq<char> {
    let base = match topic.system_prompt {
        Some(p) => p@,
        None => default_direct_prompt(),
    };
    base + "\n\n出力は必ずJSON形式で、以下のフィールドを含めてください: title (文字列), content (文字列, 300字程度), image_url (文字列またはnull), sources (文字列の配列)"@
}

/// The topic's own system prompt leads the system message; the default
/// prompt leads it only when the topic has none.
pub proof fn own_system_prompt_leads(topic: TopicConfig)
    ensures
        match topic.system_prompt {
            Some(p) => direct_system_message(topic).take(p@.len() as int) == p@,
            None => direct_system_message(topic).take(default_direct_prompt().len() as int) == default_direct_prompt(),
        },
        direct_system_message(topic).len() > match topic.system_prompt {
            Some(p) => p@.len(),
            None => default_direct_prompt().len(),
        },
{
    reveal_strlit("\n\n出力は必ずJSON形式で、以下のフィールドを含めてください: title (文字列), content (文字列, 300字程度), image_url (文字列またはnull), sources (文字列の配列)");
    match topic.system_prompt {
        Some(p) => assert(direct_system_message(topic).take(p@.len() as int) =~= p@),
        None => assert(direct_system_message(topic).take(default_direct_prompt().len() as int) =~= default_direct_prompt()),
    }
}

/// Builds the system message.
pub fn build_direct_system_message(topic: &TopicConfig) -> (r: String)
    ensures
        r@ == direct_system_message(*topic),
{
    let mut r = match &topic.system_prompt {
        Some(p) => p.clone(),
        None => String::from_str("与えられた情報源から収集した情報を基に、簡潔なニュース記事を生成してください。出典を明記し、複数のソースを統合する場合はその旨も記載してください。"),
    };
    r.append("\n\n出力は必ずJSON形式で、以下のフィールドを含めてください: title (文字列), content (文字列, 300字程度), image_url (文字列またはnull), sources (文字列の配列)");
    r
}

/// One source line of the user message: `- title` and `  Link: link`.
pub open spec fn direct_item_line(item: FeedItem) -> Seq<char> {
    "- "@ + item.title@ + "\n  Link: "@ + item.link@
}

/// The user message: the topic, the language, and the source lines.
pub open spec fn direct_user_message(topic: TopicConfig, items: Seq<FeedItem>) -> Seq<char> {
    "以下の情報源からトピック「"@ + topic.name@ + "」に関するニュース記事を"@ + topic_language(topic)
        + "で生成してください。\n\n"@ + join(items.map_values(|i: FeedItem| direct_item_line(i)), "\n"@)
}

/// Builds the user message.
pub fn build_direct_user_message(topic: &TopicConfig, items: &Vec<FeedItem>) -> (r: String)
    ensures
        r@ == direct_user_message(*topic, items@),
{
    let mut lines = String::new();
    let mut i: usize = 0;
    while i < items.len()
        invariant
            i <= items@.len(),
            lines@ == join(items@.take(i as int).map_values(|it: FeedItem| direct_item_line(it)), "\n"@),
        decreases items@.len() - i,
    {
        proof {
            let parts = items@.take(i as int).map_values(|it: FeedItem| direct_item_line(it));
            lemma_join_push(parts, "\n"@, direct_item_line(items@[i as int]));
            assert(items@.take(i + 1).map_values(|it: FeedItem| direct_item_line(it)) =~= parts.push(direct_item_line(items@[i as int])));
        }
        if i > 0 {
            lines.append("\n");
        }
        lines.append("- ");
        lines.append(items[i].title.as_str());
        lines.append("\n  Link: ");
        lines.append(items[i].link.as_str());
        i += 1;
    }
    assert(items@.take(items@.len() as int) =~= items@);
    let language = topic_language_exec(topic);
    let mut r = String::from_str("以下の情報源からトピック「");
    r.append(topic.name.as_str());
    r.append("」に関するニュース記事を");
    r.append(language.as_str());
    r.append("で生成してください。\n\n");
    r.append(lines.as_str());
    r
}

/// Reads the generated text out of a chat-completions response: the string
/// at `message.content` of the first element of the `choices` array.
pub fn direct_response_content(status: u16, status_text: &str, body: &str) -> (r: Result<String, AppError>)
    ensures
        !(200 <= status <= 299) ==> (r matches Err(AppError::Api(m))
            && m@ == "API returned "@ + status_text@ + ": "@ + take_chars(body@, 300)),
        (200 <= status <= 299 && !json_has(body@, ""@)) ==> (r matches Err(AppError::Http(m))
            && m@ == "error decoding response body"@),
        (200 <= status <= 299 && json_has(body@, ""@)) ==> match (
            json_array_len(body@, "/choices"@),
            json_str(body@, "/choices/0/message/content"@),
        ) {
            (Some(_), Some(c)) => r matches Ok(s) && s@ == c,
            _ => r matches Err(AppError::Api(m)) && m@ == "No content in API response"@,
        },
{
    if !(200 <= status && status <= 299) {
        let v = chars_of(body);
        let mut m = String::from_str("API returned ");
        m.append(status_text);
        m.append(": ");
        let p = take_chars_exec(v.as_slice(), 300);
        m.append(p.as_str());
        return Err(AppError::Api(m));
    }
    if !json_value_at(body, "") {
        return Err(AppError::Http(String::from_str("error decoding response body")));
    }
    let choices = json_array_len_at(body, "/choices");
    match (choices, json_str_at(body, "/choices/0/message/content")) {
        (Some(_), Some(c)) => Ok(c),
        _ => Err(AppError::Api(String::from_str("No content in API response"))),
    }
}

/// The texts an answer is read from: the trimmed answer, and the part of it
/// from the first `{` to the last `}` (when there is one).
pub fn direct_article_candidates(content: &str) -> (r: (String, Option<String>))
    ensures
        r.0@ == trim(content@),
        match delimited(trim(content@), '{', '}') {
            Some(t) => r.1 matches Some(s) && s@ == t,
            None => r.1 is None,
        },
{
    let v = chars_of(content);
    let t = trim_exec(v.as_slice());
    let block = delimited_span(t.as_str(), '{', '}');
    (t, block)
}

/// The article made of an answer whose JSON could not be read: the whole
/// trimmed answer as its text, under a generic title.
pub open spec fn is_fallback_article(a: ArticleResult, trimmed: Seq<char>) -> bool {
    &&& a.title@ == "Generated Article"@
    &&& a.content@ == trimmed
    &&& a.image_url is None
    &&& a.sources@.len() == 0
    &&& a.tags@.len() == 0
}

/// Picks the article of an answer: the whole trimmed answer read as an
/// article, else its braced part read as an article, else the fallback
/// article. The caller passes what each candidate parsed to.
pub fn choose_direct_article(
    trimmed: &str,
    whole: Option<ArticleResult>,
    block: Option<ArticleResult>,
) -> (r: ArticleResult)
    ensures
        match (whole, block) {
            (Some(a), _) => r == a,
            (None, Some(b)) => r == b,
            (None, None) => is_fallback_article(r, trimmed@),
        },
{
    match whole {
        Some(a) => a,
        None => match block {
            Some(b) => b,
            None => ArticleResult {
                title: String::from_str("Generated Article"),
                content: String::from_str(trimmed),
                image_url: None,
                sources: Vec::new(),
                tags: Vec::new(),
            },
        },
    }
}

} // verus!
