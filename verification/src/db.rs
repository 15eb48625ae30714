//! Records kept in the database and what is derived from them.
use vstd::prelude::*;
use vstd::string::*;
use crate::json::{json_encode_strings, json_string_list};
use crate::text::{i64_decimal, signed_decimal, views};

verus! {

/// A posted article as stored.
#[derive(Clone, Debug)]
pub struct Post {
    pub id: i64,
    pub topic_id: String,
    pub title: String,
    pub content: String,
    pub image_url: Option<String>,
    pub tags: Option<String>,
    pub discord_message_id: Option<String>,
    pub discord_thread_id: Option<String>,
    pub created_at: String,
}

/// A post as listed on screen.
#[derive(Clone, Debug)]
pub struct PostSummary {
    pub id: i64,
    pub topic_id: String,
    pub title: String,
    pub created_at: String,
}

/// Totals shown on the dashboard.
#[derive(Clone, Debug)]
pub struct DashboardStats {
    pub total_topics: usize,
    pub total_articles: i64,
    pub total_posts: i64,
}

/// One captured log line.
#[derive(Clone, Debug)]
pub struct LogEntry {
    pub timestamp: String,
    pub level: String,
    pub topic: String,
    pub message: String,
}

/// Posts of one topic: how many and when the latest was made.
#[derive(Clone, Debug)]
pub struct TopicStat {
    pub topic_id: String,
    pub post_count: i64,
    pub last_post_at: Option<String>,
}

/// The dashboard totals: every stored post counts as an article and as a
/// post; the topics are those configured.
pub fn dashboard_stats(total_posts: i64, total_topics: usize) -> (r: DashboardStats)
    ensures
        r.total_topics == total_topics,
        r.total_articles == total_posts,
        r.total_posts == total_posts,
{
    DashboardStats { total_topics, total_articles: total_posts, total_posts }
}

/// How many days of posted titles are used against repeats.
pub const RECENT_TITLE_DAYS: i64 = 2;

/// The SQLite date modifier reaching `days` days back: `-<days> days`.
pub fn recent_window_modifier(days: i64) -> (r: String)
    ensures
        r@ == "-"@ + signed_decimal(days as int) + " days"@,
{
    let mut r = String::from_str("-");
    let d = i64_decimal(days);
    r.append(d.as_str());
    r.append(" days");
    r
}

/// The stored form of an article's tags: none when there are no tags,
/// otherwise their JSON list.
pub fn tags_json(tags: &Vec<String>) -> (r: Option<String>)
    ensures
        tags@.len() == 0 ==> r is None,
        tags@.len() > 0 ==> (r matches Some(s) && s@ == json_string_list(views(tags@))),
{
    if tags.len() == 0 {
        None
    } else {
        let s = json_encode_strings(tags);
        assert(tags@.map_values(|s: String| s@) == views(tags@));
        Some(s)
    }
}

/// Post listings cover every topic when no topic is named.
pub fn lists_all_topics(topic_id: &str) -> (r: bool)
    ensures
        r == (topic_id@.len() == 0),
{
    topic_id.is_empty()
}

} // verus!
