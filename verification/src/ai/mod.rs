//! Article generation: the prompts given to the generator and what is
//! made of its answers.
pub mod agent;
pub mod direct;

use vstd::prelude::*;
use vstd::string::*;
use crate::text::{blank_exec, chars_of, is_blank, str_eq};

verus! {

/// An article produced by the generator (agent or direct mode).
#[derive(Clone, Debug)]
pub struct ArticleResult {
    pub title: String,
    pub content: String,
    pub image_url: Option<String>,
    pub sources: Vec<String>,
    /// Tags of the article (absent from an answer: none).
    pub tags: Vec<String>,
}

/// Articles wrapped in an object (`{"articles": [...]}`).
#[derive(Clone, Debug)]
pub struct ArticleListResult {
    pub articles: Vec<ArticleResult>,
}

/// The template prompt of a topic in the given language: Japanese for
/// `"ja"`, English for `"en"`, a shorter English text otherwise. The title
/// is asked to start with `【topic】`.
pub open spec fn default_prompt(topic: Seq<char>, language: Seq<char>) -> Seq<char> {
    if language == "ja"@ {
        "あなたは"@ + topic
            + "に関するニュース記事をまとめるアシスタントです。\n以下の情報源から収集した情報を基に、簡潔なニュース記事を1件生成してください。\nタイトルは「【"@
            + topic
            + "】」で始め、本文は300字程度にまとめてください。\n出典を明記し、複数のソースを統合する場合はその旨も記載してください。"@
    } else if language == "en"@ {
        "You are an assistant that summarizes news about "@ + topic
            + ".\nCreate one concise news article based on the information collected from the sources below.\nStart the title with \"【"@
            + topic + "】\" and keep the body around 300 characters.\nCite your sources and mention when multiple sources are combined."@
    } else {
        "You are an assistant that summarizes news about "@ + topic
            + ".\nCreate one concise news article based on the information provided.\nStart the title with \"【"@
            + topic + "】\" and cite your sources."@
    }
}

/// The system prompt of a topic: its own prompt when one is given and is
/// not blank, otherwise the template for its name and language.
pub open spec fn system_prompt_of(topic_name: Seq<char>, language: Seq<char>, custom: Option<Seq<char>>) -> Seq<char> {
    match custom {
        Some(p) if !is_blank(p) => p,
        _ => default_prompt(topic_name, language),
    }
}

/// Chooses the system prompt of a topic.
pub fn resolve_system_prompt(topic_name: &str, language: &str, custom_prompt: Option<&str>) -> (r: String)
    ensures
        r@ == system_prompt_of(topic_name@, language@, match custom_prompt { Some(p) => Some(p@), None => None }),
{
    match custom_prompt {
        Some(p) => {
            let v = chars_of(p);
            if !blank_exec(v.as_slice()) {
                return String::from_str(p);
            }
            generate_default_prompt(topic_name, language)
        },
        None => generate_default_prompt(topic_name, language),
    }
}

/// Builds the template prompt of a topic.
pub fn generate_default_prompt(topic_name: &str, language: &str) -> (r: String)
    ensures
        r@ == default_prompt(topic_name@, language@),
{
    if str_eq(language, "ja") {
        let mut r = String::from_str("あなたは");
        r.append(topic_name);
        r.append("に関するニュース記事をまとめるアシスタントです。\n以下の情報源から収集した情報を基に、簡潔なニュース記事を1件生成してください。\nタイトルは「【");
        r.append(topic_name);
        r.append("】」で始め、本文は300字程度にまとめてください。\n出典を明記し、複数のソースを統合する場合はその旨も記載してください。");
        r
    } else if str_eq(language, "en") {
        let mut r = String::from_str("You are an assistant that summarizes news about ");
        r.append(topic_name);
        r.append(".\nCreate one concise news article based on the information collected from the sources below.\nStart the title with \"【");
        r.append(topic_name);
        r.append("】\" and keep the body around 300 characters.\nCite your sources and mention when multiple sources are combined.");
        r
    } else {
        let mut r = String::from_str("You are an assistant that summarizes news about ");
        r.append(topic_name);
        r.append(".\nCreate one concise news article based on the information provided.\nStart the title with \"【");
        r.append(topic_name);
        r.append("】\" and cite your sources.");
        r
    }
}

} // verus!
