//! Posting to Discord forum threads through the REST API: the requests'
//! addresses and contents, and what is made of the answers.
use vstd::prelude::*;
use vstd::string::*;
use crate::error::AppError;
use crate::json::{json_has, json_str, json_str_at, json_value_at};
use crate::text::{chars_of, trim, trim_exec};

verus! {

/// The `Authorization` header value of a bot token.
pub fn bot_auth_header(token: &str) -> (r: String)
    ensures
        r@ == "Bot "@ + token@,
{
    let mut r = String::from_str("Bot ");
    r.append(token);
    r
}

/// The endpoint that identifies the bot (token check).
pub fn current_user_url() -> (r: String)
    ensures
        r@ == "https://discord.com/api/v10/users/@me"@,
{
    String::from_str("https://discord.com/api/v10/users/@me")
}

/// The endpoint that opens a thread in a forum channel.
pub fn forum_threads_url(forum_channel_id: &str) -> (r: String)
    ensures
        r@ == "https://discord.com/api/v10/channels/"@ + forum_channel_id@ + "/threads"@,
{
    let mut r = String::from_str("https://discord.com/api/v10/channels/");
    r.append(forum_channel_id);
    r.append("/threads");
    r
}

/// The endpoint that posts a message into a thread.
pub fn thread_messages_url(thread_id: &str) -> (r: String)
    ensures
        r@ == "https://discord.com/api/v10/channels/"@ + thread_id@ + "/messages"@,
{
    let mut r = String::from_str("https://discord.com/api/v10/channels/");
    r.append(thread_id);
    r.append("/messages");
    r
}

/// An article as a plain Markdown message: the bold title, a blank line,
/// the trimmed text, and the image link when a non-empty image URL is given.
pub open spec fn article_markdown(title: Seq<char>, content: Seq<char>, image_url: Option<Seq<char>>) -> Seq<char> {
    let body = "**"@ + title + "**\n\n"@ + trim(content);
    match image_url {
        Some(u) if u.len() > 0 => body + "\n\n![image]("@ + u + ")"@,
        _ => body,
    }
}

/// Formats an article for posting.
pub fn format_article_message(title: &str, content: &str, image_url: Option<&str>) -> (r: String)
    ensures
        r@ == article_markdown(title@, content@, match image_url { Some(u) => Some(u@), None => None }),
{
    let mut r = String::from_str("**");
    r.append(title);
    r.append("**\n\n");
    let cv = chars_of(content);
    let t = trim_exec(cv.as_slice());
    r.append(t.as_str());
    match image_url {
        Some(u) => {
            if !u.is_empty() {
                r.append("\n\n![image](");
                r.append(u);
                r.append(")");
            }
        },
        None => {},
    }
    r
}

/// The first message of a topic's thread.
pub open spec fn thread_description(topic_name: Seq<char>) -> Seq<char> {
    "\u{1f58a}\u{fe0f} 【"@ + topic_name + "】"@ + topic_name + " に関するニュースを自動収集・まとめます"@
}

/// Builds the first message of a topic's thread.
pub fn build_thread_description(topic_name: &str) -> (r: String)
    ensures
        r@ == thread_description(topic_name@),
{
    let mut r = String::from_str("\u{1f58a}\u{fe0f} 【");
    r.append(topic_name);
    r.append("】");
    r.append(topic_name);
    r.append(" に関するニュースを自動収集・まとめます");
    r
}

/// The error when a request could not be sent at all.
pub fn request_failed_error(detail: &str) -> (r: AppError)
    ensures
        r matches AppError::Discord(m) && m@ == "HTTP request failed: "@ + detail@,
{
    let mut m = String::from_str("HTTP request failed: ");
    m.append(detail);
    AppError::Discord(m)
}

/// The error when the token check could not be sent at all.
pub fn token_check_failed_error(detail: &str) -> (r: AppError)
    ensures
        r matches AppError::Discord(m) && m@ == "HTTP error: "@ + detail@,
{
    let mut m = String::from_str("HTTP error: ");
    m.append(detail);
    AppError::Discord(m)
}

/// The error for a failed answer: `<what> (<status>): <body>`, `head`
/// being `<what> (`.
fn status_error(head: &str, status_text: &str, body: &str) -> (r: AppError)
    ensures
        r matches AppError::Discord(m) && m@ == head@ + status_text@ + "): "@ + body@,
{
    let mut m = String::from_str(head);
    m.append(status_text);
    m.append("): ");
    m.append(body);
    AppError::Discord(m)
}

/// The error for a successful answer whose body is not JSON (what reading
/// the body as JSON reports).
fn invalid_body_error() -> (r: AppError)
    ensures
        r matches AppError::Http(m) && m@ == "error decoding response body"@,
{
    AppError::Http(String::from_str("error decoding response body"))
}

/// Reads the answer to the token check: a 2xx status with a JSON body
/// accepts the token.
pub fn token_check_result(status: u16, status_text: &str, body: &str) -> (r: Result<(), AppError>)
    ensures
        !(200 <= status <= 299) ==> (r matches Err(AppError::Discord(m))
            && m@ == "Authentication failed ("@ + status_text@ + "): "@ + body@),
        (200 <= status <= 299) ==> (json_has(body@, ""@) <==> r is Ok),
        (200 <= status <= 299 && !json_has(body@, ""@)) ==> (r matches Err(AppError::Http(m))
            && m@ == "error decoding response body"@),
{
    if !(200 <= status && status <= 299) {
        return Err(status_error("Authentication failed (", status_text, body));
    }
    if json_value_at(body, "") {
        Ok(())
    } else {
        Err(invalid_body_error())
    }
}

/// Reads the answer to opening a thread: on success the ids of the first
/// message and of the thread (`message.id` and `id`).
pub fn thread_created_result(status: u16, status_text: &str, body: &str) -> (r: Result<(String, String), AppError>)
    ensures
        !(200 <= status <= 299) ==> (r matches Err(AppError::Discord(m))
            && m@ == "Failed to create forum thread ("@ + status_text@ + "): "@ + body@),
        (200 <= status <= 299 && !json_has(body@, ""@)) ==> (r matches Err(AppError::Http(m))
            && m@ == "error decoding response body"@),
        (200 <= status <= 299 && json_has(body@, ""@)) ==> match (json_str(body@, "/id"@), json_str(body@, "/message/id"@)) {
            (Some(t), Some(mi)) => r matches Ok((a, b)) && a@ == mi && b@ == t,
            (None, _) => r matches Err(AppError::Discord(m)) && m@ == "No thread id in response"@,
            (Some(_), None) => r matches Err(AppError::Discord(m)) && m@ == "No message id in response"@,
        },
{
    if !(200 <= status && status <= 299) {
        return Err(status_error("Failed to create forum thread (", status_text, body));
    }
    if !json_value_at(body, "") {
        return Err(invalid_body_error());
    }
    let thread_id = match json_str_at(body, "/id") {
        Some(t) => t,
        None => return Err(AppError::Discord(String::from_str("No thread id in response"))),
    };
    let message_id = match json_str_at(body, "/message/id") {
        Some(m) => m,
        None => return Err(AppError::Discord(String::from_str("No message id in response"))),
    };
    Ok((message_id, thread_id))
}

/// Reads the answer to posting a message: on success its id.
pub fn message_posted_result(status: u16, status_text: &str, body: &str) -> (r: Result<String, AppError>)
    ensures
        !(200 <= status <= 299) ==> (r matches Err(AppError::Discord(m))
            && m@ == "Failed to post to thread ("@ + status_text@ + "): "@ + body@),
        (200 <= status <= 299 && !json_has(body@, ""@)) ==> (r matches Err(AppError::Http(m))
            && m@ == "error decoding response body"@),
        (200 <= status <= 299 && json_has(body@, ""@)) ==> match json_str(body@, "/id"@) {
            Some(i) => r matches Ok(s) && s@ == i,
            None => r matches Err(AppError::Discord(m)) && m@ == "No message id in response"@,
        },
{
    if !(200 <= status && status <= 299) {
        return Err(status_error("Failed to post to thread (", status_text, body));
    }
    if !json_value_at(body, "") {
        return Err(invalid_body_error());
    }
    match json_str_at(body, "/id") {
        Some(i) => Ok(i),
        None => Err(AppError::Discord(String::from_str("No message id in response"))),
    }
}

} // verus!
