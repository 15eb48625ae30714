//! One run of a topic: fetch its sources, collect new items, have articles
//! written and post them. The run is a state machine: each answer of the
//! outside world (a feed, the stored titles, the articles, a Discord reply)
//! is handed to it, and it says what to do next.
use vstd::prelude::*;
use vstd::string::*;
use crate::ai::ArticleResult;
use crate::config::{AiConfig, DiscordConfig, TopicConfig};
use crate::discord::{build_thread_description, thread_description};
use crate::db::{tags_json, RECENT_TITLE_DAYS};
use crate::error::{AppError, ErrorKind};
use crate::fetcher::rss::{copy_opt, item_views, Feed, FeedItem, FeedItemView};
use crate::fetcher::rsshub::DEFAULT_RSSHUB_URL;
use crate::fetcher::xml::opt_str;
use crate::json::json_string_list;
use crate::text::{chars_of, owned, str_eq, take_chars_exec, views};

verus! {

/// Seconds waited before each source but the first (rate limits).
pub const SOURCE_DELAY_SECS: u64 = 2;

/// At most this many items are handed to the article generator.
pub const MAX_RUN_ITEMS: usize = 40;

/// The model used when none is configured.
pub open spec fn default_model() -> Seq<char> {
    "mimo-v2.5"@
}

/// The chat-completions endpoint used when none is configured.
pub open spec fn default_api_base() -> Seq<char> {
    "https://openrouter.ai/api/v1"@
}

/// The agent command used when none is configured.
pub open spec fn default_agent_command() -> Seq<char> {
    "omp"@
}

/// The links of a list of items.
pub open spec fn links(items: Seq<FeedItemView>) -> Seq<Seq<char>> {
    items.map_values(|i: FeedItemView| i.link)
}

/// Appends, in order, each item of `new` whose link is not yet among the
/// collected items.
pub open spec fn merge_new(acc: Seq<FeedItemView>, new: Seq<FeedItemView>) -> Seq<FeedItemView>
    decreases new.len(),
{
    if new.len() == 0 {
        acc
    } else {
        let a = merge_new(acc, new.drop_last());
        if links(a).contains(new.last().link) {
            a
        } else {
            a.push(new.last())
        }
    }
}

/// The items kept for the generator: the first forty.
pub open spec fn capped(items: Seq<FeedItemView>) -> Seq<FeedItemView> {
    if items.len() > MAX_RUN_ITEMS {
        items.take(MAX_RUN_ITEMS as int)
    } else {
        items
    }
}

/// Where the run stands, and which answer it waits for.
pub enum PipelineStage {
    /// Waiting out the delay before source `source`.
    Waiting { source: usize },
    /// Waiting for the feed of source `source`.
    AwaitingFeed { source: usize },
    /// Waiting for the titles posted recently.
    AwaitingTitles,
    /// Waiting for the generated articles.
    AwaitingArticles,
    /// Waiting for the stored thread of the topic.
    AwaitingThread,
    /// Waiting for a new thread to be created.
    AwaitingNewThread,
    /// Waiting for the new thread to be stored.
    AwaitingThreadSave,
    /// Waiting for article `article` to be posted.
    AwaitingPost { article: usize },
    /// Waiting for posted article `article` to be recorded.
    AwaitingRecord { article: usize },
    /// Waiting for article `article` to be stored (no Discord).
    AwaitingStore { article: usize },
    /// The run is over.
    Finished,
}

/// What the caller does next.
pub enum PipelineAction {
    /// Sleep this many seconds, then call [`PipelineRun::on_waited`].
    Wait { secs: u64 },
    /// Fetch an RSS or Atom feed, then call [`PipelineRun::on_fetched`].
    FetchRss { url: String },
    /// Fetch an RSSHub route, then call [`PipelineRun::on_fetched`].
    FetchRsshub { base_url: String, path: String },
    /// Read the topic's titles of the last `days` days, then call
    /// [`PipelineRun::on_recent_titles`].
    LoadRecentTitles { days: i64 },
    /// Ask the chat-completions API for an article, then call
    /// [`PipelineRun::on_articles`].
    GenerateDirect { api_key: String, model: String, base_url: String },
    /// Run the agent CLI, then call [`PipelineRun::on_articles`].
    GenerateWithAgent { command: String, model: String, timeout_sec: u64 },
    /// Read the topic's stored thread, then call [`PipelineRun::on_thread`].
    LookupThread,
    /// Create a forum thread, then call [`PipelineRun::on_thread_created`].
    CreateThread { forum_channel_id: String, name: String, description: String },
    /// Store the topic's thread, then call [`PipelineRun::on_thread_saved`].
    SaveThread { thread_id: String },
    /// Post an article to the thread, then call [`PipelineRun::on_posted`].
    PostArticle { thread_id: String, title: String, content: String, image_url: Option<String> },
    /// Store a posted article with its Discord ids, then call
    /// [`PipelineRun::on_recorded`].
    RecordPost {
        title: String,
        content: String,
        image_url: Option<String>,
        tags: Option<String>,
        message_id: String,
        thread_id: String,
    },
    /// Store an article that is not posted, then call [`PipelineRun::on_stored`].
    StoreArticle { title: String, content: String, image_url: Option<String>, tags: Option<String> },
    /// The run is over, with this result.
    Finish(Result<(), AppError>),
}

/// The mathematical content of a [`PipelineAction`].
pub enum ActionView {
    Wait { secs: nat },
    FetchRss { url: Seq<char> },
    FetchRsshub { base_url: Seq<char>, path: Seq<char> },
    LoadRecentTitles { days: int },
    GenerateDirect { api_key: Seq<char>, model: Seq<char>, base_url: Seq<char> },
    GenerateWithAgent { command: Seq<char>, model: Seq<char>, timeout_sec: nat },
    LookupThread,
    CreateThread { forum_channel_id: Seq<char>, name: Seq<char>, description: Seq<char> },
    SaveThread { thread_id: Seq<char> },
    PostArticle { thread_id: Seq<char>, title: Seq<char>, content: Seq<char>, image_url: Option<Seq<char>> },
    RecordPost {
        title: Seq<char>,
        content: Seq<char>,
        image_url: Option<Seq<char>>,
        tags: Option<Seq<char>>,
        message_id: Seq<char>,
        thread_id: Seq<char>,
    },
    StoreArticle { title: Seq<char>, content: Seq<char>, image_url: Option<Seq<char>>, tags: Option<Seq<char>> },
    Done,
    Fail { kind: ErrorKind, message: Seq<char> },
}

impl View for PipelineAction {
    type V = ActionView;

    open spec fn view(&self) -> ActionView {
        match self {
            PipelineAction::Wait { secs } => ActionView::Wait { secs: *secs as nat },
            PipelineAction::FetchRss { url } => ActionView::FetchRss { url: url@ },
            PipelineAction::FetchRsshub { base_url, path } => ActionView::FetchRsshub {
                base_url: base_url@,
                path: path@,
            },
            PipelineAction::LoadRecentTitles { days } => ActionView::LoadRecentTitles { days: *days as int },
            PipelineAction::GenerateDirect { api_key, model, base_url } => ActionView::GenerateDirect {
                api_key: api_key@,
                model: model@,
                base_url: base_url@,
            },
            PipelineAction::GenerateWithAgent { command, model, timeout_sec } => ActionView::GenerateWithAgent {
                command: command@,
                model: model@,
                timeout_sec: *timeout_sec as nat,
            },
            PipelineAction::LookupThread => ActionView::LookupThread,
            PipelineAction::CreateThread { forum_channel_id, name, description } => ActionView::CreateThread {
                forum_channel_id: forum_channel_id@,
                name: name@,
                description: description@,
            },
            PipelineAction::SaveThread { thread_id } => ActionView::SaveThread { thread_id: thread_id@ },
            PipelineAction::PostArticle { thread_id, title, content, image_url } => ActionView::PostArticle {
                thread_id: thread_id@,
                title: title@,
                content: content@,
                image_url: opt_str(*image_url),
            },
            PipelineAction::RecordPost { title, content, image_url, tags, message_id, thread_id } =>
                ActionView::RecordPost {
                    title: title@,
                    content: content@,
                    image_url: opt_str(*image_url),
                    tags: opt_str(*tags),
                    message_id: message_id@,
                    thread_id: thread_id@,
                },
            PipelineAction::StoreArticle { title, content, image_url, tags } => ActionView::StoreArticle {
                title: title@,
                content: content@,
                image_url: opt_str(*image_url),
                tags: opt_str(*tags),
            },
            PipelineAction::Finish(Ok(())) => ActionView::Done,
            PipelineAction::Finish(Err(e)) => ActionView::Fail { kind: e.kind(), message: e.msg() },
        }
    }
}

/// The changing part of a run.
pub struct RunModel {
    pub stage: PipelineStage,
    /// Items collected so far, one per link.
    pub items: Seq<FeedItemView>,
    /// Titles of the topic posted recently.
    pub titles: Seq<Seq<char>>,
    pub articles: Seq<ArticleResult>,
    /// The forum thread articles go to.
    pub thread_id: Seq<char>,
    /// The forum channel a new thread is created in.
    pub forum_channel_id: Seq<char>,
}

/// The stored form of an article's tags.
pub open spec fn tags_view(a: ArticleResult) -> Option<Seq<char>> {
    if a.tags@.len() == 0 {
        None
    } else {
        Some(json_string_list(views(a.tags@)))
    }
}

/// The fetch of source `i`: an RSS feed, an RSSHub route (the public
/// instance and the source's URL when base or path are absent), or, for an
/// unknown kind, the next source.
pub open spec fn fetch_source(topic: TopicConfig, m: RunModel, i: int) -> (RunModel, ActionView) {
    let s = topic.sources@[i];
    if s.source_type@ == "rss"@ {
        (RunModel { stage: PipelineStage::AwaitingFeed { source: i as usize }, ..m }, ActionView::FetchRss { url: s.url@ })
    } else if s.source_type@ == "rsshub"@ {
        (
            RunModel { stage: PipelineStage::AwaitingFeed { source: i as usize }, ..m },
            ActionView::FetchRsshub {
                base_url: match s.base_url {
                    Some(b) => b@,
                    None => DEFAULT_RSSHUB_URL@,
                },
                path: match s.path {
                    Some(p) => p@,
                    None => s.url@,
                },
            },
        )
    } else {
        after_skip(topic, m, i + 1)
    }
}

/// An RSSHub source is fetched from its own instance when it names one,
/// and from the public instance only when it names none; its route is its
/// `path`, or its `url` when it has no path.
pub proof fn rsshub_source_uses_its_instance(topic: TopicConfig, m: RunModel, i: int)
    requires
        0 <= i < topic.sources@.len(),
        topic.sources@[i].source_type@ == "rsshub"@,
    ensures
        fetch_source(topic, m, i).1 matches ActionView::FetchRsshub { base_url, path } && {
            &&& (topic.sources@[i].base_url matches Some(b) ==> base_url == b@)
            &&& (topic.sources@[i].base_url is None ==> base_url == DEFAULT_RSSHUB_URL@)
            &&& (topic.sources@[i].path matches Some(p) ==> path == p@)
            &&& (topic.sources@[i].path is None ==> path == topic.sources@[i].url@)
        },
        fetch_source(topic, m, i).0.stage == (PipelineStage::AwaitingFeed { source: i as usize }),
{
    reveal_strlit("rsshub");
    reveal_strlit("rss");
    assert("rsshub"@.len() != "rss"@.len());
}

/// A run whose first source is an RSSHub source with its own instance
/// starts by fetching from that instance.
pub proof fn first_rsshub_fetch_uses_its_instance(topic: TopicConfig, b: Seq<char>)
    requires
        topic.sources@.len() > 0,
        topic.sources@[0].source_type@ == "rsshub"@,
        topic.sources@[0].base_url matches Some(x) && x@ == b,
    ensures
        sources_from(topic, initial_model(), 0).1 matches ActionView::FetchRsshub { base_url, .. } && base_url == b,
{
    rsshub_source_uses_its_instance(topic, initial_model(), 0);
}

/// Past an unknown source: wait before the next one, or end the fetching.
pub open spec fn after_skip(topic: TopicConfig, m: RunModel, j: int) -> (RunModel, ActionView) {
    if j >= topic.sources@.len() {
        fetching_done(m)
    } else {
        (RunModel { stage: PipelineStage::Waiting { source: j as usize }, ..m }, ActionView::Wait { secs: SOURCE_DELAY_SECS as nat })
    }
}

/// Going on with source `i`: the first source is fetched at once, each
/// later one after the delay; past the last one the fetching ends.
pub open spec fn sources_from(topic: TopicConfig, m: RunModel, i: int) -> (RunModel, ActionView) {
    if i >= topic.sources@.len() {
        fetching_done(m)
    } else if i > 0 {
        (RunModel { stage: PipelineStage::Waiting { source: i as usize }, ..m }, ActionView::Wait { secs: SOURCE_DELAY_SECS as nat })
    } else {
        fetch_source(topic, m, i)
    }
}

/// The end of the fetching: with no item the run is over; otherwise the
/// first forty items are kept and the recent titles are asked for.
pub open spec fn fetching_done(m: RunModel) -> (RunModel, ActionView) {
    if m.items.len() == 0 {
        (RunModel { stage: PipelineStage::Finished, ..m }, ActionView::Done)
    } else {
        (
            RunModel { stage: PipelineStage::AwaitingTitles, items: capped(m.items), ..m },
            ActionView::LoadRecentTitles { days: RECENT_TITLE_DAYS as int },
        )
    }
}

/// The forum channel of the topic's thread: the topic's own when it names a
/// non-empty one, else the configured default.
pub open spec fn channel_for(topic: TopicConfig, discord: DiscordConfig) -> Seq<char> {
    match topic.forum_channel_id {
        Some(c) => if c@.len() > 0 { c@ } else { discord.forum_channel_id@ },
        None => discord.forum_channel_id@,
    }
}

/// The agent's time limit: the configured one (300 s when absent), at least 30 s.
pub open spec fn agent_timeout(ai: AiConfig) -> nat {
    let t: nat = match ai.agent_timeout_sec {
        Some(t) => t as nat,
        None => 300,
    };
    if t < 30 {
        30
    } else {
        t
    }
}

/// The generator call: in `direct` mode the API (it needs a key), otherwise
/// the agent CLI; absent settings take their defaults.
pub open spec fn generation(ai: AiConfig) -> ActionView {
    let model = match ai.model {
        Some(m) => m@,
        None => default_model(),
    };
    if ai.mode@ == "direct"@ {
        match ai.api_key {
            Some(k) => ActionView::GenerateDirect {
                api_key: k@,
                model,
                base_url: match ai.base_url {
                    Some(b) => b@,
                    None => default_api_base(),
                },
            },
            None => ActionView::Fail { kind: ErrorKind::Config, message: "API key not configured"@ },
        }
    } else {
        ActionView::GenerateWithAgent {
            command: match ai.agent_command {
                Some(c) => c@,
                None => default_agent_command(),
            },
            model,
            timeout_sec: agent_timeout(ai),
        }
    }
}

/// After the recent titles (none when they could not be read): the
/// generator is called, or the run fails for want of an API key.
pub open spec fn after_titles(
    topic: TopicConfig,
    m: RunModel,
    titles: Option<Seq<Seq<char>>>,
    ai: AiConfig,
    discord: DiscordConfig,
) -> (RunModel, ActionView) {
    let m2 = RunModel {
        titles: match titles {
            Some(t) => t,
            None => Seq::empty(),
        },
        forum_channel_id: channel_for(topic, discord),
        ..m
    };
    let a = generation(ai);
    if a is Fail {
        (RunModel { stage: PipelineStage::Finished, ..m2 }, a)
    } else {
        (RunModel { stage: PipelineStage::AwaitingArticles, ..m2 }, a)
    }
}

/// Posting from article `i` on; past the last one the run is over.
pub open spec fn posting_from(m: RunModel, i: int) -> (RunModel, ActionView) {
    if i < m.articles.len() {
        let a = m.articles[i];
        (
            RunModel { stage: PipelineStage::AwaitingPost { article: i as usize }, ..m },
            ActionView::PostArticle {
                thread_id: m.thread_id,
                title: a.title@,
                content: a.content@,
                image_url: opt_str(a.image_url),
            },
        )
    } else {
        (RunModel { stage: PipelineStage::Finished, ..m }, ActionView::Done)
    }
}

/// Storing from article `i` on; past the last one the run is over.
pub open spec fn storing_from(m: RunModel, i: int) -> (RunModel, ActionView) {
    if i < m.articles.len() {
        let a = m.articles[i];
        (
            RunModel { stage: PipelineStage::AwaitingStore { article: i as usize }, ..m },
            ActionView::StoreArticle {
                title: a.title@,
                content: a.content@,
                image_url: opt_str(a.image_url),
                tags: tags_view(a),
            },
        )
    } else {
        (RunModel { stage: PipelineStage::Finished, ..m }, ActionView::Done)
    }
}

/// After the articles: a failure ends the run with it; no article, or
/// posting turned off, ends it successfully; with Discord the topic's
/// thread is looked up, without it the articles are stored.
pub open spec fn after_articles(
    discord_enabled: bool,
    post_enabled: bool,
    m: RunModel,
    articles: Result<Seq<ArticleResult>, AppError>,
) -> (RunModel, ActionView) {
    match articles {
        Err(e) => (RunModel { stage: PipelineStage::Finished, ..m }, ActionView::Fail { kind: e.kind(), message: e.msg() }),
        Ok(a) => {
            let m2 = RunModel { articles: a, ..m };
            if a.len() == 0 || !post_enabled {
                (RunModel { stage: PipelineStage::Finished, ..m2 }, ActionView::Done)
            } else if discord_enabled {
                (RunModel { stage: PipelineStage::AwaitingThread, ..m2 }, ActionView::LookupThread)
            } else {
                storing_from(m2, 0)
            }
        },
    }
}

/// After the thread lookup: a failure ends the run (a new thread would be
/// a duplicate); a stored thread is posted to; without one a thread is
/// created in the topic's channel, named after the topic.
pub open spec fn after_thread(
    topic: TopicConfig,
    m: RunModel,
    found: Result<Option<Seq<char>>, AppError>,
) -> (RunModel, ActionView) {
    match found {
        Err(e) => (RunModel { stage: PipelineStage::Finished, ..m }, ActionView::Fail { kind: e.kind(), message: e.msg() }),
        Ok(Some(t)) => posting_from(RunModel { thread_id: t, ..m }, 0),
        Ok(None) => (
            RunModel { stage: PipelineStage::AwaitingNewThread, ..m },
            ActionView::CreateThread {
                forum_channel_id: m.forum_channel_id,
                name: topic.name@,
                description: thread_description(topic.name@),
            },
        ),
    }
}

/// The failure of a thread creation, as the run reports it.
pub open spec fn thread_failure_message(e: AppError) -> Seq<char> {
    "スレッド作成失敗: "@ + e.msg()
}

/// After a thread creation: a failure ends the run with a Discord error;
/// a new thread is stored before the posting starts.
pub open spec fn after_thread_created(m: RunModel, created: Result<Seq<char>, AppError>) -> (RunModel, ActionView) {
    match created {
        Err(e) => (
            RunModel { stage: PipelineStage::Finished, ..m },
            ActionView::Fail { kind: ErrorKind::Discord, message: thread_failure_message(e) },
        ),
        Ok(t) => (
            RunModel { stage: PipelineStage::AwaitingThreadSave, thread_id: t, ..m },
            ActionView::SaveThread { thread_id: t },
        ),
    }
}

/// After a post of article `i`: a posted article is recorded with its
/// message and thread; a failed one is left out (a later run tries again).
pub open spec fn after_post(m: RunModel, i: int, posted: Result<Seq<char>, AppError>) -> (RunModel, ActionView) {
    match posted {
        Ok(msg) => {
            let a = m.articles[i];
            (
                RunModel { stage: PipelineStage::AwaitingRecord { article: i as usize }, ..m },
                ActionView::RecordPost {
                    title: a.title@,
                    content: a.content@,
                    image_url: opt_str(a.image_url),
                    tags: tags_view(a),
                    message_id: msg,
                    thread_id: m.thread_id,
                },
            )
        },
        Err(_) => posting_from(m, i + 1),
    }
}

/// The answer a stage waits for matches the action that led there.
pub open spec fn awaits(stage: PipelineStage, a: ActionView) -> bool {
    match a {
        ActionView::Wait { .. } => stage is Waiting,
        ActionView::FetchRss { .. } => stage is AwaitingFeed,
        ActionView::FetchRsshub { .. } => stage is AwaitingFeed,
        ActionView::LoadRecentTitles { .. } => stage is AwaitingTitles,
        ActionView::GenerateDirect { .. } => stage is AwaitingArticles,
        ActionView::GenerateWithAgent { .. } => stage is AwaitingArticles,
        ActionView::LookupThread => stage is AwaitingThread,
        ActionView::CreateThread { .. } => stage is AwaitingNewThread,
        ActionView::SaveThread { .. } => stage is AwaitingThreadSave,
        ActionView::PostArticle { .. } => stage is AwaitingPost,
        ActionView::RecordPost { .. } => stage is AwaitingRecord,
        ActionView::StoreArticle { .. } => stage is AwaitingStore,
        ActionView::Done => stage is Finished,
        ActionView::Fail { .. } => stage is Finished,
    }
}

fn contains_link(items: &Vec<FeedItem>, link: &str) -> (r: bool)
    ensures
        r == links(item_views(items@)).contains(link@),
{
    let ghost ls = links(item_views(items@));
    let mut i: usize = 0;
    while i < items.len()
        invariant
            i <= items@.len(),
            ls == links(item_views(items@)),
            ls.len() == items@.len(),
            forall|j: int| 0 <= j < i ==> ls[j] != link@,
        decreases items@.len() - i,
    {
        assert(ls[i as int] == items@[i as int].link@);
        if str_eq(items[i].link.as_str(), link) {
            assert(ls[i as int] == link@);
            return true;
        }
        i += 1;
    }
    false
}

/// Appends to `acc`, in order, each item of `new` whose link `acc` does not
/// hold yet.
pub fn merge_items(acc: &mut Vec<FeedItem>, new: &Vec<FeedItem>)
    ensures
        item_views(final(acc)@) == merge_new(item_views(old(acc)@), item_views(new@)),
{
    let ghost start = item_views(acc@);
    let ghost nv = item_views(new@);
    let mut i: usize = 0;
    while i < new.len()
        invariant
            i <= new@.len(),
            nv == item_views(new@),
            nv.len() == new@.len(),
            item_views(acc@) == merge_new(start, nv.take(i as int)),
        decreases new@.len() - i,
    {
        proof {
            assert(nv.take(i + 1).drop_last() =~= nv.take(i as int));
            assert(nv.take(i + 1).last() == new@[i as int]@);
        }
        if !contains_link(acc, new[i].link.as_str()) {
            let item = new[i].duplicate();
            acc.push(item);
            proof {
                assert(item_views(acc@) =~= merge_new(start, nv.take(i as int)).push(new@[i as int]@));
            }
        }
        i += 1;
    }
    assert(nv.take(new@.len() as int) =~= nv);
}

/// Merging keeps the links distinct.
pub proof fn lemma_merge_distinct(acc: Seq<FeedItemView>, new: Seq<FeedItemView>)
    requires
        links(acc).no_duplicates(),
    ensures
        links(merge_new(acc, new)).no_duplicates(),
    decreases new.len(),
{
    if new.len() > 0 {
        lemma_merge_distinct(acc, new.drop_last());
        let a = merge_new(acc, new.drop_last());
        let x = new.last();
        if !links(a).contains(x.link) {
            let l2 = links(a.push(x));
            assert(l2 =~= links(a).push(x.link));
            assert forall|i: int, j: int| 0 <= i < l2.len() && 0 <= j < l2.len() && i != j implies l2[i] != l2[j] by {
                if i == l2.len() - 1 {
                    assert(links(a)[j] == l2[j]);
                } else if j == l2.len() - 1 {
                    assert(links(a)[i] == l2[i]);
                }
            }
        }
    }
}

/// Keeping the first items keeps the links distinct.
pub proof fn lemma_capped_distinct(items: Seq<FeedItemView>)
    requires
        links(items).no_duplicates(),
    ensures
        links(capped(items)).no_duplicates(),
        capped(items).len() <= MAX_RUN_ITEMS,
        capped(items).len() == if items.len() > MAX_RUN_ITEMS { MAX_RUN_ITEMS as int } else { items.len() as int },
{
    if items.len() > MAX_RUN_ITEMS {
        assert(links(items.take(MAX_RUN_ITEMS as int)) =~= links(items).take(MAX_RUN_ITEMS as int));
    }
}

/// Collecting a feed's items never drops or reorders what was collected,
/// takes every new link once, and adds nothing that was not fetched.
pub proof fn merge_keeps_collected_items(acc: Seq<FeedItemView>, new: Seq<FeedItemView>)
    ensures
        merge_new(acc, new).len() >= acc.len(),
        merge_new(acc, new).take(acc.len() as int) == acc,
        forall|k: int| 0 <= k < new.len() ==> links(merge_new(acc, new)).contains(#[trigger] new[k].link),
        forall|k: int| 0 <= k < acc.len() ==> links(merge_new(acc, new)).contains(#[trigger] acc[k].link),
        forall|y: FeedItemView| #[trigger] merge_new(acc, new).contains(y) ==> acc.contains(y) || new.contains(y),
    decreases new.len(),
{
    if new.len() == 0 {
        assert(acc.take(acc.len() as int) =~= acc);
        assert forall|k: int| 0 <= k < acc.len() implies links(acc).contains(#[trigger] acc[k].link) by {
            assert(links(acc)[k] == acc[k].link);
        }
    } else {
        let d = new.drop_last();
        let x = new.last();
        merge_keeps_collected_items(acc, d);
        let a = merge_new(acc, d);
        let m = merge_new(acc, new);
        if links(a).contains(x.link) {
            assert(m == a);
        } else {
            assert(m == a.push(x));
            assert(m.take(acc.len() as int) =~= a.take(acc.len() as int));
            assert(links(m) =~= links(a).push(x.link));
            assert(links(m)[a.len() as int] == x.link);
        }
        assert forall|k: int| 0 <= k < new.len() implies links(m).contains(#[trigger] new[k].link) by {
            if k < d.len() {
                assert(d[k] == new[k]);
                assert(links(a).contains(d[k].link));
                let j = choose|j: int| 0 <= j < links(a).len() && links(a)[j] == d[k].link;
                assert(links(m)[j] == links(a)[j]);
            } else {
                assert(new[k] == x);
                if links(a).contains(x.link) {
                } else {
                    assert(links(m)[a.len() as int] == x.link);
                }
            }
        }
        assert forall|k: int| 0 <= k < acc.len() implies links(m).contains(#[trigger] acc[k].link) by {
            assert(links(a).contains(acc[k].link));
            let j = choose|j: int| 0 <= j < links(a).len() && links(a)[j] == acc[k].link;
            assert(links(m)[j] == links(a)[j]);
        }
        assert forall|y: FeedItemView| #[trigger] m.contains(y) implies acc.contains(y) || new.contains(y) by {
            let j = choose|j: int| 0 <= j < m.len() && m[j] == y;
            if j < a.len() {
                assert(a[j] == y);
                assert(a.contains(y));
                if d.contains(y) {
                    let t = choose|t: int| 0 <= t < d.len() && d[t] == y;
                    assert(new[t] == y);
                }
            } else {
                assert(y == x);
                assert(new[new.len() - 1] == y);
            }
        }
    }
}

/// What the article generator is given: at most forty items, no two with
/// one link, the first of those collected.
pub proof fn generator_gets_capped_distinct_items(m: RunModel)
    requires
        links(m.items).no_duplicates(),
        m.items.len() > 0,
    ensures
        fetching_done(m).0.items.len() <= MAX_RUN_ITEMS,
        links(fetching_done(m).0.items).no_duplicates(),
        fetching_done(m).0.items == m.items.take(fetching_done(m).0.items.len() as int),
        fetching_done(m).1 == (ActionView::LoadRecentTitles { days: RECENT_TITLE_DAYS as int }),
{
    lemma_capped_distinct(m.items);
    if m.items.len() <= MAX_RUN_ITEMS {
        assert(m.items.take(m.items.len() as int) =~= m.items);
    }
}

/// A dry run posts nothing and stores nothing: once the articles are in,
/// the run is over.
pub proof fn dry_run_posts_nothing(discord_enabled: bool, m: RunModel, articles: Seq<ArticleResult>)
    ensures
        after_articles(discord_enabled, false, m, Ok(articles)).1 == ActionView::Done,
        after_articles(discord_enabled, false, m, Ok(articles)).0.stage == PipelineStage::Finished,
{
}

/// An article whose post failed is not recorded (so that it is not taken
/// for posted and a later run tries it again); a posted one is recorded
/// with the message id Discord gave.
pub proof fn only_posted_articles_are_recorded(
    m: RunModel,
    i: int,
    posted: Result<Seq<char>, AppError>,
)
    requires
        0 <= i < m.articles.len(),
    ensures
        posted is Err ==> !(after_post(m, i, posted).1 is RecordPost),
        posted matches Ok(msg) ==> after_post(m, i, posted).1 matches ActionView::RecordPost {
            message_id, title, ..
        } && message_id == msg && title == m.articles[i].title@,
{
}

/// One run of a topic.
pub struct PipelineRun {
    /// The topic run.
    pub topic: TopicConfig,
    /// Whether a Discord client is configured.
    pub discord_enabled: bool,
    /// Whether articles are posted and stored (off for a dry run).
    pub post_enabled: bool,
    pub stage: PipelineStage,
    pub items: Vec<FeedItem>,
    pub recent_titles: Vec<String>,
    pub articles: Vec<ArticleResult>,
    pub thread_id: String,
    pub forum_channel_id: String,
}

/// The part of a run fixed when it starts.
pub open spec fn same_setup(a: PipelineRun, b: PipelineRun) -> bool {
    &&& a.topic == b.topic
    &&& a.discord_enabled == b.discord_enabled
    &&& a.post_enabled == b.post_enabled
}

/// The empty run before its first step.
pub open spec fn initial_model() -> RunModel {
    RunModel {
        stage: PipelineStage::Finished,
        items: Seq::empty(),
        titles: Seq::empty(),
        articles: Seq::empty(),
        thread_id: Seq::empty(),
        forum_channel_id: Seq::empty(),
    }
}

impl PipelineRun {
    /// The changing part of the run.
    pub open spec fn model(&self) -> RunModel {
        RunModel {
            stage: self.stage,
            items: item_views(self.items@),
            titles: views(self.recent_titles@),
            articles: self.articles@,
            thread_id: self.thread_id@,
            forum_channel_id: self.forum_channel_id@,
        }
    }

    /// The stage names a source or an article that exists, and the
    /// collected items have distinct links.
    pub open spec fn wf(&self) -> bool {
        &&& links(item_views(self.items@)).no_duplicates()
        &&& match self.stage {
            PipelineStage::Waiting { source } => 0 < source < self.topic.sources@.len(),
            PipelineStage::AwaitingFeed { source } => source < self.topic.sources@.len(),
            PipelineStage::AwaitingPost { article } => article < self.articles@.len(),
            PipelineStage::AwaitingRecord { article } => article < self.articles@.len(),
            PipelineStage::AwaitingStore { article } => article < self.articles@.len(),
            _ => true,
        }
    }

    fn go_fetching_done(&mut self) -> (r: PipelineAction)
        requires
            links(item_views(old(self).items@)).no_duplicates(),
        ensures
            same_setup(*final(self), *old(self)),
            (final(self).model(), r@) == fetching_done(old(self).model()),
            final(self).wf(),
    {
        proof {
            lemma_capped_distinct(item_views(self.items@));
        }
        if self.items.len() == 0 {
            self.stage = PipelineStage::Finished;
            return PipelineAction::Finish(Ok(()));
        }
        if self.items.len() > MAX_RUN_ITEMS {
            let ghost before = item_views(self.items@);
            self.items.truncate(MAX_RUN_ITEMS);
            assert(item_views(self.items@) =~= before.take(MAX_RUN_ITEMS as int));
        }
        self.stage = PipelineStage::AwaitingTitles;
        PipelineAction::LoadRecentTitles { days: RECENT_TITLE_DAYS }
    }

    fn go_after_skip(&mut self, j: usize) -> (r: PipelineAction)
        requires
            0 < j,
            links(item_views(old(self).items@)).no_duplicates(),
        ensures
            same_setup(*final(self), *old(self)),
            (final(self).model(), r@) == after_skip(old(self).topic, old(self).model(), j as int),
            final(self).wf(),
    {
        if j >= self.topic.sources.len() {
            self.go_fetching_done()
        } else {
            self.stage = PipelineStage::Waiting { source: j };
            PipelineAction::Wait { secs: SOURCE_DELAY_SECS }
        }
    }

    fn go_fetch_source(&mut self, i: usize) -> (r: PipelineAction)
        requires
            i < old(self).topic.sources@.len(),
            links(item_views(old(self).items@)).no_duplicates(),
        ensures
            same_setup(*final(self), *old(self)),
            (final(self).model(), r@) == fetch_source(old(self).topic, old(self).model(), i as int),
            final(self).wf(),
    {
        let n = self.topic.sources.len();
        assert(i < n);
        let kind = if str_eq(self.topic.sources[i].source_type.as_str(), "rss") {
            1u8
        } else if str_eq(self.topic.sources[i].source_type.as_str(), "rsshub") {
            2u8
        } else {
            0u8
        };
        if kind == 1 {
            let url = owned(self.topic.sources[i].url.as_str());
            self.stage = PipelineStage::AwaitingFeed { source: i };
            PipelineAction::FetchRss { url }
        } else if kind == 2 {
            let base_url = match &self.topic.sources[i].base_url {
                Some(b) => owned(b.as_str()),
                None => owned(DEFAULT_RSSHUB_URL),
            };
            let path = match &self.topic.sources[i].path {
                Some(p) => owned(p.as_str()),
                None => owned(self.topic.sources[i].url.as_str()),
            };
            self.stage = PipelineStage::AwaitingFeed { source: i };
            PipelineAction::FetchRsshub { base_url, path }
        } else {
            self.go_after_skip(i + 1)
        }
    }

    fn go_sources_from(&mut self, i: usize) -> (r: PipelineAction)
        requires
            links(item_views(old(self).items@)).no_duplicates(),
        ensures
            same_setup(*final(self), *old(self)),
            (final(self).model(), r@) == sources_from(old(self).topic, old(self).model(), i as int),
            final(self).wf(),
    {
        if i >= self.topic.sources.len() {
            self.go_fetching_done()
        } else if i > 0 {
            self.stage = PipelineStage::Waiting { source: i };
            PipelineAction::Wait { secs: SOURCE_DELAY_SECS }
        } else {
            self.go_fetch_source(i)
        }
    }

    fn go_posting_from(&mut self, i: usize) -> (r: PipelineAction)
        requires
            links(item_views(old(self).items@)).no_duplicates(),
        ensures
            same_setup(*final(self), *old(self)),
            (final(self).model(), r@) == posting_from(old(self).model(), i as int),
            final(self).wf(),
    {
        if i < self.articles.len() {
            let title = self.articles[i].title.clone();
            let content = self.articles[i].content.clone();
            let image_url = copy_opt(&self.articles[i].image_url);
            let thread_id = self.thread_id.clone();
            self.stage = PipelineStage::AwaitingPost { article: i };
            PipelineAction::PostArticle { thread_id, title, content, image_url }
        } else {
            self.stage = PipelineStage::Finished;
            PipelineAction::Finish(Ok(()))
        }
    }

    fn go_storing_from(&mut self, i: usize) -> (r: PipelineAction)
        requires
            links(item_views(old(self).items@)).no_duplicates(),
        ensures
            same_setup(*final(self), *old(self)),
            (final(self).model(), r@) == storing_from(old(self).model(), i as int),
            final(self).wf(),
    {
        if i < self.articles.len() {
            let title = self.articles[i].title.clone();
            let content = self.articles[i].content.clone();
            let image_url = copy_opt(&self.articles[i].image_url);
            let tags = tags_json(&self.articles[i].tags);
            self.stage = PipelineStage::AwaitingStore { article: i };
            PipelineAction::StoreArticle { title, content, image_url, tags }
        } else {
            self.stage = PipelineStage::Finished;
            PipelineAction::Finish(Ok(()))
        }
    }

    /// Starts a run of `topic`: the first action fetches its first source
    /// (or ends the run when there is nothing to fetch).
    pub fn start(topic: TopicConfig, discord_enabled: bool, post_enabled: bool) -> (r: (PipelineRun, PipelineAction))
        ensures
            r.0.topic == topic,
            r.0.discord_enabled == discord_enabled,
            r.0.post_enabled == post_enabled,
            (r.0.model(), r.1@) == sources_from(topic, initial_model(), 0),
            r.0.wf(),
            awaits(r.0.stage, r.1@),
    {
        let mut run = PipelineRun {
            topic,
            discord_enabled,
            post_enabled,
            stage: PipelineStage::Finished,
            items: Vec::new(),
            recent_titles: Vec::new(),
            articles: Vec::new(),
            thread_id: String::new(),
            forum_channel_id: String::new(),
        };
        proof {
            assert(item_views(run.items@) =~= Seq::<FeedItemView>::empty());
            assert(views(run.recent_titles@) =~= Seq::<Seq<char>>::empty());
            assert(run.articles@ =~= Seq::<ArticleResult>::empty());
            assert(links(item_views(run.items@)) =~= Seq::<Seq<char>>::empty());
        }
        let a = run.go_sources_from(0);
        (run, a)
    }

    /// The delay before a source is over: the source is fetched.
    pub fn on_waited(&mut self) -> (r: PipelineAction)
        requires
            old(self).wf(),
            old(self).stage is Waiting,
        ensures
            same_setup(*final(self), *old(self)),
            (final(self).model(), r@) == fetch_source(
                old(self).topic,
                old(self).model(),
                old(self).stage->Waiting_source as int,
            ),
            final(self).wf(),
            awaits(final(self).stage, r@),
    {
        let i = match self.stage {
            PipelineStage::Waiting { source } => source,
            _ => 0,
        };
        self.go_fetch_source(i)
    }

    /// A source was fetched: a feed's new items are collected (a failed
    /// fetch is passed over) and the run goes on with the next source.
    pub fn on_fetched(&mut self, feed: Result<Feed, AppError>) -> (r: PipelineAction)
        requires
            old(self).wf(),
            old(self).stage is AwaitingFeed,
        ensures
            same_setup(*final(self), *old(self)),
            (final(self).model(), r@) == sources_from(
                old(self).topic,
                RunModel {
                    items: match feed {
                        Ok(f) => merge_new(old(self).model().items, f@.items),
                        Err(_) => old(self).model().items,
                    },
                    ..old(self).model()
                },
                old(self).stage->AwaitingFeed_source + 1,
            ),
            final(self).wf(),
            awaits(final(self).stage, r@),
    {
        let i = match self.stage {
            PipelineStage::AwaitingFeed { source } => source,
            _ => 0,
        };
        let n = self.topic.sources.len();
        assert(i < n);
        match feed {
            Ok(f) => {
                proof {
                    lemma_merge_distinct(item_views(self.items@), item_views(f.items@));
                }
                merge_items(&mut self.items, &f.items);
            },
            Err(_) => {},
        }
        self.go_sources_from(i + 1)
    }

    /// The recent titles arrived (none when they could not be read): the
    /// articles are asked for, with the configuration of this moment.
    pub fn on_recent_titles(
        &mut self,
        titles: Result<Vec<String>, AppError>,
        ai: &AiConfig,
        discord: &DiscordConfig,
    ) -> (r: PipelineAction)
        requires
            old(self).wf(),
            old(self).stage is AwaitingTitles,
        ensures
            same_setup(*final(self), *old(self)),
            (final(self).model(), r@) == after_titles(
                old(self).topic,
                old(self).model(),
                match titles {
                    Ok(t) => Some(views(t@)),
                    Err(_) => None,
                },
                *ai,
                *discord,
            ),
            final(self).wf(),
            awaits(final(self).stage, r@),
    {
        self.recent_titles = match titles {
            Ok(t) => t,
            Err(_) => Vec::new(),
        };
        self.forum_channel_id = channel_exec(&self.topic, discord);
        let a = generation_exec(ai);
        proof {
            assert(views(Seq::<String>::empty()) =~= Seq::<Seq<char>>::empty());
        }
        if matches!(a, PipelineAction::Finish(_)) {
            self.stage = PipelineStage::Finished;
        } else {
            self.stage = PipelineStage::AwaitingArticles;
        }
        a
    }

    /// The articles arrived (or the generator failed).
    pub fn on_articles(&mut self, articles: Result<Vec<ArticleResult>, AppError>) -> (r: PipelineAction)
        requires
            old(self).wf(),
            old(self).stage is AwaitingArticles,
        ensures
            same_setup(*final(self), *old(self)),
            (final(self).model(), r@) == after_articles(
                old(self).discord_enabled,
                old(self).post_enabled,
                old(self).model(),
                match articles {
                    Ok(a) => Ok(a@),
                    Err(e) => Err(e),
                },
            ),
            final(self).wf(),
            awaits(final(self).stage, r@),
    {
        match articles {
            Err(e) => {
                self.stage = PipelineStage::Finished;
                PipelineAction::Finish(Err(e))
            },
            Ok(a) => {
                self.articles = a;
                if self.articles.len() == 0 || !self.post_enabled {
                    self.stage = PipelineStage::Finished;
                    PipelineAction::Finish(Ok(()))
                } else if self.discord_enabled {
                    self.stage = PipelineStage::AwaitingThread;
                    PipelineAction::LookupThread
                } else {
                    self.go_storing_from(0)
                }
            },
        }
    }

    /// The topic's stored thread was looked up.
    pub fn on_thread(&mut self, found: Result<Option<String>, AppError>) -> (r: PipelineAction)
        requires
            old(self).wf(),
            old(self).stage is AwaitingThread,
        ensures
            same_setup(*final(self), *old(self)),
            (final(self).model(), r@) == after_thread(
                old(self).topic,
                old(self).model(),
                match found {
                    Ok(Some(t)) => Ok(Some(t@)),
                    Ok(None) => Ok(None),
                    Err(e) => Err(e),
                },
            ),
            final(self).wf(),
            awaits(final(self).stage, r@),
    {
        match found {
            Err(e) => {
                self.stage = PipelineStage::Finished;
                PipelineAction::Finish(Err(e))
            },
            Ok(Some(t)) => {
                self.thread_id = t;
                self.go_posting_from(0)
            },
            Ok(None) => {
                let forum_channel_id = self.forum_channel_id.clone();
                let name = self.topic.name.clone();
                let description = build_thread_description(self.topic.name.as_str());
                self.stage = PipelineStage::AwaitingNewThread;
                PipelineAction::CreateThread { forum_channel_id, name, description }
            },
        }
    }

    /// A thread creation was answered with the new thread's id, or failed.
    pub fn on_thread_created(&mut self, created: Result<String, AppError>) -> (r: PipelineAction)
        requires
            old(self).wf(),
            old(self).stage is AwaitingNewThread,
        ensures
            same_setup(*final(self), *old(self)),
            (final(self).model(), r@) == after_thread_created(
                old(self).model(),
                match created {
                    Ok(t) => Ok(t@),
                    Err(e) => Err(e),
                },
            ),
            final(self).wf(),
            awaits(final(self).stage, r@),
    {
        match created {
            Err(e) => {
                let mut m = String::from_str("スレッド作成失敗: ");
                let em = e.message();
                m.append(em.as_str());
                self.stage = PipelineStage::Finished;
                PipelineAction::Finish(Err(AppError::Discord(m)))
            },
            Ok(t) => {
                let thread_id = t.clone();
                self.thread_id = t;
                self.stage = PipelineStage::AwaitingThreadSave;
                PipelineAction::SaveThread { thread_id }
            },
        }
    }

    /// The new thread was stored (whether or not that worked): the posting starts.
    pub fn on_thread_saved(&mut self) -> (r: PipelineAction)
        requires
            old(self).wf(),
            old(self).stage is AwaitingThreadSave,
        ensures
            same_setup(*final(self), *old(self)),
            (final(self).model(), r@) == posting_from(old(self).model(), 0),
            final(self).wf(),
            awaits(final(self).stage, r@),
    {
        self.go_posting_from(0)
    }

    /// An article was posted (with its message id) or not.
    pub fn on_posted(&mut self, posted: Result<String, AppError>) -> (r: PipelineAction)
        requires
            old(self).wf(),
            old(self).stage is AwaitingPost,
        ensures
            same_setup(*final(self), *old(self)),
            (final(self).model(), r@) == after_post(
                old(self).model(),
                old(self).stage->AwaitingPost_article as int,
                match posted {
                    Ok(m) => Ok(m@),
                    Err(e) => Err(e),
                },
            ),
            final(self).wf(),
            awaits(final(self).stage, r@),
    {
        let i = match self.stage {
            PipelineStage::AwaitingPost { article } => article,
            _ => 0,
        };
        let n = self.articles.len();
        assert(i < n);
        match posted {
            Ok(message_id) => {
                let title = self.articles[i].title.clone();
                let content = self.articles[i].content.clone();
                let image_url = copy_opt(&self.articles[i].image_url);
                let tags = tags_json(&self.articles[i].tags);
                let thread_id = self.thread_id.clone();
                self.stage = PipelineStage::AwaitingRecord { article: i };
                PipelineAction::RecordPost { title, content, image_url, tags, message_id, thread_id }
            },
            Err(_) => self.go_posting_from(i + 1),
        }
    }

    /// A posted article was recorded (whether or not that worked): the
    /// next article is posted.
    pub fn on_recorded(&mut self) -> (r: PipelineAction)
        requires
            old(self).wf(),
            old(self).stage is AwaitingRecord,
        ensures
            same_setup(*final(self), *old(self)),
            (final(self).model(), r@) == posting_from(
                old(self).model(),
                old(self).stage->AwaitingRecord_article + 1,
            ),
            final(self).wf(),
            awaits(final(self).stage, r@),
    {
        let i = match self.stage {
            PipelineStage::AwaitingRecord { article } => article,
            _ => 0,
        };
        let n = self.articles.len();
        assert(i < n);
        self.go_posting_from(i + 1)
    }

    /// An article was stored (whether or not that worked): the next one is.
    pub fn on_stored(&mut self) -> (r: PipelineAction)
        requires
            old(self).wf(),
            old(self).stage is AwaitingStore,
        ensures
            same_setup(*final(self), *old(self)),
            (final(self).model(), r@) == storing_from(
                old(self).model(),
                old(self).stage->AwaitingStore_article + 1,
            ),
            final(self).wf(),
            awaits(final(self).stage, r@),
    {
        let i = match self.stage {
            PipelineStage::AwaitingStore { article } => article,
            _ => 0,
        };
        let n = self.articles.len();
        assert(i < n);
        self.go_storing_from(i + 1)
    }
}

/// The forum channel of the topic's thread (see [`channel_for`]).
pub fn channel_exec(topic: &TopicConfig, discord: &DiscordConfig) -> (r: String)
    ensures
        r@ == channel_for(*topic, *discord),
{
    match &topic.forum_channel_id {
        Some(c) => {
            if c.as_str().is_empty() {
                discord.forum_channel_id.clone()
            } else {
                c.clone()
            }
        },
        None => discord.forum_channel_id.clone(),
    }
}

/// The generator call of the configuration (see [`generation`]).
pub fn generation_exec(ai: &AiConfig) -> (r: PipelineAction)
    ensures
        r@ == generation(*ai),
{
    let model = match &ai.model {
        Some(m) => m.clone(),
        None => String::from_str("mimo-v2.5"),
    };
    if str_eq(ai.mode.as_str(), "direct") {
        match &ai.api_key {
            Some(k) => {
                let base_url = match &ai.base_url {
                    Some(b) => b.clone(),
                    None => String::from_str("https://openrouter.ai/api/v1"),
                };
                PipelineAction::GenerateDirect { api_key: k.clone(), model, base_url }
            },
            None => PipelineAction::Finish(Err(AppError::Config(String::from_str("API key not configured")))),
        }
    } else {
        let command = match &ai.agent_command {
            Some(c) => c.clone(),
            None => String::from_str("omp"),
        };
        let t: u64 = match ai.agent_timeout_sec {
            Some(t) => t,
            None => 300,
        };
        let timeout_sec: u64 = if t < 30 { 30 } else { t };
        PipelineAction::GenerateWithAgent { command, model, timeout_sec }
    }
}

/// How many characters of an article a dry run shows.
pub const PREVIEW_CHARS: usize = 150;

/// What a dry run shows of an article: its first 150 characters, followed
/// by `…` when there are more.
pub open spec fn article_preview(content: Seq<char>) -> Seq<char> {
    if content.len() > PREVIEW_CHARS {
        content.take(PREVIEW_CHARS as int) + "…"@
    } else {
        content
    }
}

/// Makes the dry-run preview of an article's content.
pub fn dry_run_preview(content: &str) -> (r: String)
    ensures
        r@ == article_preview(content@),
{
    let v = chars_of(content);
    let mut r = take_chars_exec(v.as_slice(), PREVIEW_CHARS);
    if v.len() > PREVIEW_CHARS {
        r.append("…");
    }
    r
}

} // verus!
