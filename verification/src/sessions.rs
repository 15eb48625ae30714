//! The agent's recorded sessions of a topic, for the topic detail screen.
//!
//! Each session file holds JSON lines; message records carry a role, a
//! timestamp and content (a string or a list of parts). The first user
//! message is the prompt, the last assistant message with text is the
//! answer, and thinking parts are collected as the reasoning log.
use vstd::prelude::*;
use vstd::string::*;
use crate::ai::agent::{agent_prompt, prompt_head, prompt_tail};
use crate::fetcher::date::rfc3339_instant;
use crate::json::{
    item_pointer, item_pointer_exec, json_array_len, json_array_len_at, json_has, json_str, json_str_at,
    json_value_at,
};
use crate::text::{
    blank_exec, chars_of, find, find_exec, occurs_at, occurs_at_exec, is_blank, join, lemma_find_from_some, lemma_join_push,
    lemma_trim_bounds, lines_of, starts_with, starts_with_exec, str_eq, str_lines, string_of_range,
    take_chars, take_chars_exec, trim, trim_exec, trim_start, trim_start_index, views,
};

verus! {

/// One recorded session as shown on screen.
#[derive(Clone, Debug)]
pub struct TopicDetailSession {
    pub created_at: String,
    pub prompt_preview: String,
    pub response_preview: String,
    /// The whole prompt, without the agent's file wrapper.
    pub prompt_full: String,
    /// The whole answer.
    pub response_full: String,
    /// The reasoning log, parts separated by `---` lines.
    pub thinking_full: String,
}

// ---------------------------------------------------------------- text helpers

/// The prompt without the `<file name="...">` wrapper the agent puts
/// around a prompt file, trimmed.
pub open spec fn unwrapped_prompt(s: Seq<char>) -> Seq<char> {
    let t = trim(s);
    if starts_with(t, "<file name="@) && find(t, ">"@) is Some {
        trim(t.skip(find(t, ">"@).unwrap() + 1))
    } else {
        t
    }
}

/// Removes the agent's file wrapper from a prompt.
pub fn strip_file_wrapper(s: &str) -> (r: String)
    ensures
        r@ == unwrapped_prompt(s@),
{
    let v = chars_of(s);
    let t = trim_exec(v.as_slice());
    let tv = chars_of(t.as_str());
    let head = chars_of("<file name=");
    let gt = chars_of(">");
    if starts_with_exec(tv.as_slice(), head.as_slice()) {
        match find_exec(tv.as_slice(), gt.as_slice()) {
            Some(e) => {
                proof {
                    lemma_find_from_some(tv@, gt@, 0);
                    reveal_strlit(">");
                }
                assert(gt@.len() == 1);
                let tn = tv.len();
                assert(e + 1 <= tn);
                let rest = &tv[e + 1..tn];
                assert(rest@ =~= tv@.skip(e + 1));
                return trim_exec(rest);
            },
            None => {},
        }
    }
    t
}

/// The marker a topic's prompt carries: `## トピック` and the topic name on
/// the next line.
pub open spec fn topic_marker(topic_name: Seq<char>) -> Seq<char> {
    "## トピック\n"@ + topic_name
}

/// The marker `needle` occurs at `i` and ends a line: a line break or the
/// end of the prompt follows it.
pub open spec fn marker_line_at(prompt: Seq<char>, needle: Seq<char>, i: int) -> bool {
    let k = i + needle.len();
    occurs_at(prompt, needle, i) && (k >= prompt.len() || prompt[k] == '\n' || prompt[k] == '\r')
}

/// The prompt names the topic: some topic marker of it is followed by a
/// line break or ends the prompt (so a name is not taken for a longer one).
pub open spec fn belongs_to_topic(prompt: Seq<char>, topic_name: Seq<char>) -> bool {
    exists|i: int| #[trigger] marker_line_at(prompt, topic_marker(topic_name), i)
}

/// Every agent prompt is recognised as a prompt of its own topic: the
/// session history of a topic finds the runs that were made for it,
/// whatever the topic is called.
pub proof fn agent_prompt_belongs_to_its_topic(
    topic_name: Seq<char>,
    language: Seq<char>,
    model: Seq<char>,
    recent: Seq<char>,
    system: Seq<char>,
    summary: Seq<char>,
)
    ensures
        belongs_to_topic(agent_prompt(topic_name, language, model, recent, system, summary), topic_name),
{
    let p = agent_prompt(topic_name, language, model, recent, system, summary);
    let intro = "あなたはニュース記事を生成するアシスタントです。\n\n"@;
    let marker = "## トピック\n"@;
    let after = "\n\n## 言語\n"@;
    reveal_strlit("あなたはニュース記事を生成するアシスタントです。\n\n## トピック\n");
    reveal_strlit("あなたはニュース記事を生成するアシスタントです。\n\n");
    reveal_strlit("## トピック\n");
    reveal_strlit("\n\n## 言語\n");
    assert(prompt_head() =~= intro + marker);
    let rest = language + "\n\n## 使用モデル\n"@ + model + "\n\n## 既に投稿済みのトピック（重複防止用）\n"@ + recent
        + "\n\n## システム指示\n"@ + system + "\n\n## 元記事\n"@ + summary + prompt_tail();
    assert(p =~= intro + (marker + topic_name) + (after + rest));
    let needle = topic_marker(topic_name);
    assert(needle =~= marker + topic_name);
    let at = intro.len() as int;
    assert(p.subrange(at, at + needle.len()) =~= needle);
    assert(p[at + needle.len()] == after[0]);
    assert(marker_line_at(p, needle, at));
}

/// Whether a recorded prompt was written for the topic.
pub fn prompt_belongs_to_topic(prompt: &str, topic_name: &str) -> (r: bool)
    ensures
        r == belongs_to_topic(prompt@, topic_name@),
{
    let mut needle = String::from_str("## トピック\n");
    needle.append(topic_name);
    let pv = chars_of(prompt);
    let nv = chars_of(needle.as_str());
    let pn = pv.len();
    let nn = nv.len();
    if nn > pn {
        proof {
            assert forall|i: int| !#[trigger] marker_line_at(prompt@, nv@, i) by {}
        }
        return false;
    }
    let last = pn - nn;
    let mut i: usize = 0;
    loop
        invariant
            pv@ == prompt@,
            nv@ == topic_marker(topic_name@),
            pn == pv@.len(),
            nn == nv@.len(),
            last == pn - nn,
            i <= last,
            forall|j: int| 0 <= j < i ==> !#[trigger] marker_line_at(prompt@, nv@, j),
        ensures
            forall|j: int| 0 <= j <= last ==> !#[trigger] marker_line_at(prompt@, nv@, j),
        decreases last - i,
    {
        if occurs_at_exec(pv.as_slice(), nv.as_slice(), i) {
            let k = i + nn;
            if k >= pn || pv[k] == '\n' || pv[k] == '\r' {
                assert(marker_line_at(prompt@, nv@, i as int));
                return true;
            }
        }
        assert(!marker_line_at(prompt@, nv@, i as int));
        if i == last {
            break;
        }
        i += 1;
    }
    proof {
        assert forall|j: int| !#[trigger] marker_line_at(prompt@, nv@, j) by {
            if 0 <= j <= last {
            }
        }
    }
    false
}

/// The text a preview starts from: trimmed at the start, and without the
/// first line when it opens with `<file ` (the wrapper line).
pub open spec fn preview_body(text: Seq<char>) -> Seq<char> {
    let t = trim_start(text);
    if starts_with(t, "<file "@) {
        let rest = t.skip(6);
        match find(rest, "\n"@) {
            Some(k) => trim_start(rest.skip(k + 1)),
            None => t,
        }
    } else {
        t
    }
}

/// A preview: the first 200 characters of the body, with `…` when more follow.
pub open spec fn preview_of(text: Seq<char>) -> Seq<char> {
    let b = preview_body(text);
    if b.len() > 200 { b.take(200) + "…"@ } else { b }
}

/// Makes the on-screen preview of a prompt or an answer.
pub fn truncate_preview(text: &str) -> (r: String)
    ensures
        r@ == preview_of(text@),
{
    let v = chars_of(text);
    let a = trim_start_index(v.as_slice());
    let t = &v[a..v.len()];
    assert(t@ =~= trim_start(text@));
    let head = chars_of("<file ");
    let nl = chars_of("\n");
    let mut lo = a;
    if starts_with_exec(t, head.as_slice()) {
        proof {
            reveal_strlit("<file ");
        }
        let rest = &t[6..t.len()];
        assert(rest@ =~= t@.skip(6));
        match find_exec(rest, nl.as_slice()) {
            Some(k) => {
                proof {
                    lemma_find_from_some(rest@, nl@, 0);
                    reveal_strlit("\n");
                }
                let after = &rest[k + 1..rest.len()];
                assert(after@ =~= rest@.skip(k + 1));
                let b = trim_start_index(after);
                assert(after@.skip(b as int) =~= v@.subrange(a + 6 + k + 1 + b, v@.len() as int));
                lo = a + 6 + k + 1 + b;
            },
            None => {},
        }
    }
    let body = &v[lo..v.len()];
    assert(body@ =~= preview_body(text@));
    if body.len() > 200 {
        let mut r = string_of_range(body, 0, 200);
        assert(body@.subrange(0, 200) =~= body@.take(200));
        r.append("…");
        r
    } else {
        string_of_range(body, 0, body.len())
    }
}

// ---------------------------------------------------------------- message records

/// The pointer of a field of part `j` of a message's content.
pub open spec fn part_pointer(j: nat, key: Seq<char>) -> Seq<char> {
    item_pointer("/message/content"@, j, key)
}

/// The texts of the first `n` content parts that carry a string `text`.
pub open spec fn part_texts(line: Seq<char>, n: nat) -> Seq<Seq<char>>
    decreases n,
{
    if n == 0 {
        Seq::empty()
    } else {
        let prev = part_texts(line, (n - 1) as nat);
        match json_str(line, part_pointer((n - 1) as nat, "text"@)) {
            Some(t) => prev.push(t),
            None => prev,
        }
    }
}

/// The text of a message: its content when that is a string; the texts of
/// its parts joined by newlines when it is a list; otherwise nothing.
pub open spec fn message_text(line: Seq<char>) -> Seq<char> {
    match json_str(line, "/message/content"@) {
        Some(s) => s,
        None => match json_array_len(line, "/message/content"@) {
            Some(n) => join(part_texts(line, n), "\n"@),
            None => Seq::empty(),
        },
    }
}

/// A part kind that holds reasoning.
pub open spec fn is_thinking_kind(k: Seq<char>) -> bool {
    k == "thinking"@ || k == "reasoning"@ || k == "thinking_delta"@
}

/// The reasoning text of content part `j`: its `text` field when it has one
/// (as a string, else nothing), otherwise its `thinking` field.
pub open spec fn thinking_of_part(line: Seq<char>, j: nat) -> Seq<char> {
    let v = if json_has(line, part_pointer(j, "text"@)) {
        json_str(line, part_pointer(j, "text"@))
    } else {
        json_str(line, part_pointer(j, "thinking"@))
    };
    match v {
        Some(t) => t,
        None => Seq::empty(),
    }
}

/// The kind of content part `j` (empty when it has none).
pub open spec fn part_kind(line: Seq<char>, j: nat) -> Seq<char> {
    match json_str(line, part_pointer(j, "type"@)) {
        Some(k) => k,
        None => Seq::empty(),
    }
}

/// The non-blank reasoning texts among the first `n` content parts.
pub open spec fn thinking_parts(line: Seq<char>, n: nat) -> Seq<Seq<char>>
    decreases n,
{
    if n == 0 {
        Seq::empty()
    } else {
        let prev = thinking_parts(line, (n - 1) as nat);
        let j = (n - 1) as nat;
        if is_thinking_kind(part_kind(line, j)) && !is_blank(thinking_of_part(line, j)) {
            prev.push(thinking_of_part(line, j))
        } else {
            prev
        }
    }
}

/// The reasoning texts of a message line.
pub open spec fn line_thinking(line: Seq<char>) -> Seq<Seq<char>> {
    match json_array_len(line, "/message/content"@) {
        Some(n) => thinking_parts(line, n),
        None => Seq::empty(),
    }
}

/// A message record: JSON of type `message` with a `message` holding a
/// string `role`.
pub open spec fn is_message_line(line: Seq<char>) -> bool {
    json_str(line, "/type"@) == Some("message"@) && json_has(line, "/message"@)
        && json_str(line, "/message/role"@) is Some
}

/// What one session file has yielded so far.
pub struct SessionScan {
    pub first_ts: Option<Seq<char>>,
    pub first_prompt: Option<Seq<char>>,
    pub last_answer: Option<Seq<char>>,
    pub thinking: Seq<Seq<char>>,
}

/// One line of a session file.
pub open spec fn session_step(s: SessionScan, line: Seq<char>) -> SessionScan {
    if !is_message_line(line) {
        s
    } else {
        let role = json_str(line, "/message/role"@).unwrap();
        let ts = match json_str(line, "/timestamp"@) { Some(t) => t, None => Seq::empty() };
        let text = message_text(line);
        let s2 = SessionScan { thinking: s.thinking + line_thinking(line), ..s };
        if role == "user"@ {
            if s2.first_prompt is None {
                SessionScan { first_ts: Some(ts), first_prompt: Some(text), ..s2 }
            } else {
                s2
            }
        } else if role == "assistant"@ {
            if !is_blank(text) { SessionScan { last_answer: Some(text), ..s2 } } else { s2 }
        } else {
            s2
        }
    }
}

/// A session file's lines, read in order.
pub open spec fn session_scan(lines: Seq<Seq<char>>) -> SessionScan
    decreases lines.len(),
{
    if lines.len() == 0 {
        SessionScan { first_ts: None, first_prompt: None, last_answer: None, thinking: Seq::empty() }
    } else {
        session_step(session_scan(lines.drop_last()), lines.last())
    }
}

/// A message line of the assistant that carries text.
pub open spec fn is_answer_line(line: Seq<char>) -> bool {
    is_message_line(line) && json_str(line, "/message/role"@) == Some("assistant"@) && !is_blank(message_text(line))
}

/// The answer of a session is its last assistant message with text: after
/// such a line, whatever lines follow that are not answers themselves, the
/// session's answer is that line's text.
pub proof fn last_answer_wins(lines: Seq<Seq<char>>, answer: Seq<char>, rest: Seq<Seq<char>>)
    requires
        is_answer_line(answer),
        forall|i: int| 0 <= i < rest.len() ==> !is_answer_line(#[trigger] rest[i]),
    ensures
        session_scan(lines.push(answer) + rest).last_answer == Some(message_text(answer)),
    decreases rest.len(),
{
    reveal_strlit("assistant");
    reveal_strlit("user");
    if rest.len() == 0 {
        assert(lines.push(answer) + rest =~= lines.push(answer));
        assert(lines.push(answer).drop_last() =~= lines);
        assert("assistant"@.len() != "user"@.len());
        assert(session_scan(lines.push(answer)) == session_step(session_scan(lines), answer));
    } else {
        let d = rest.drop_last();
        assert forall|i: int| 0 <= i < d.len() implies !is_answer_line(#[trigger] d[i]) by {
            assert(d[i] == rest[i]);
        }
        last_answer_wins(lines, answer, d);
        let all = lines.push(answer) + rest;
        assert(all.drop_last() =~= lines.push(answer) + d);
        assert(all.last() == rest[rest.len() - 1]);
        let l = rest[rest.len() - 1];
        assert(!is_answer_line(l));
        let prev = session_scan(lines.push(answer) + d);
        assert(session_scan(all) == session_step(prev, l));
        assert(session_step(prev, l).last_answer == prev.last_answer);
    }
}

/// The answer shown for a session file is the text of its last assistant
/// message with text.
pub proof fn shown_answer_is_last_answer(
    content: Seq<char>,
    topic_name: Seq<char>,
    lines: Seq<Seq<char>>,
    answer: Seq<char>,
    rest: Seq<Seq<char>>,
)
    requires
        str_lines(content) == lines.push(answer) + rest,
        is_answer_line(answer),
        forall|i: int| 0 <= i < rest.len() ==> !is_answer_line(#[trigger] rest[i]),
        file_session(content, topic_name) is Some,
    ensures
        file_session(content, topic_name).unwrap().response_full == message_text(answer),
{
    last_answer_wins(lines, answer, rest);
}

/// The prompt and its timestamp are found together.
proof fn lemma_scan_prompt_ts(lines: Seq<Seq<char>>)
    ensures
        (session_scan(lines).first_prompt is Some) == (session_scan(lines).first_ts is Some),
    decreases lines.len(),
{
    if lines.len() > 0 {
        lemma_scan_prompt_ts(lines.drop_last());
    }
}

/// A session as shown, with its sort key (the prompt's timestamp).
pub struct SessionView {
    pub key: Seq<char>,
    pub prompt_preview: Seq<char>,
    pub response_preview: Seq<char>,
    pub prompt_full: Seq<char>,
    pub response_full: Seq<char>,
    pub thinking_full: Seq<char>,
}

/// The session of one file for a topic: none when the file has no prompt or
/// the prompt is for another topic.
pub open spec fn file_session(content: Seq<char>, topic_name: Seq<char>) -> Option<SessionView> {
    let s = session_scan(str_lines(content));
    match s.first_prompt {
        Some(p) => if belongs_to_topic(p, topic_name) {
            let response = match s.last_answer { Some(a) => a, None => Seq::empty() };
            Some(SessionView {
                key: s.first_ts.unwrap(),
                prompt_preview: preview_of(p),
                response_preview: preview_of(response),
                prompt_full: unwrapped_prompt(p),
                response_full: response,
                thinking_full: join(s.thinking, "\n---\n"@),
            })
        } else {
            None
        },
        None => None,
    }
}

/// The non-blank reasoning texts of a message line.
fn line_thinking_exec(line: &str) -> (r: Vec<String>)
    ensures
        views(r@) == line_thinking(line@),
{
    let mut r: Vec<String> = Vec::new();
    match json_array_len_at(line, "/message/content") {
        Some(n) => {
            let mut j: usize = 0;
            while j < n
                invariant
                    j <= n,
                    json_array_len(line@, "/message/content"@) == Some(n as nat),
                    views(r@) == thinking_parts(line@, j as nat),
                decreases n - j,
            {
                let kp = item_pointer_exec("/message/content", j, "type");
                let kind = match json_str_at(line, kp.as_str()) {
                    Some(k) => k,
                    None => String::new(),
                };
                let thinking_kind = str_eq(kind.as_str(), "thinking") || str_eq(kind.as_str(), "reasoning")
                    || str_eq(kind.as_str(), "thinking_delta");
                if thinking_kind {
                    let tp = item_pointer_exec("/message/content", j, "text");
                    let v = if json_value_at(line, tp.as_str()) {
                        json_str_at(line, tp.as_str())
                    } else {
                        let hp = item_pointer_exec("/message/content", j, "thinking");
                        json_str_at(line, hp.as_str())
                    };
                    let t = match v {
                        Some(t) => t,
                        None => String::new(),
                    };
                    let tv = chars_of(t.as_str());
                    if !blank_exec(tv.as_slice()) {
                        let ghost before = views(r@);
                        r.push(t);
                        assert(views(r@) =~= before.push(t@));
                    }
                }
                j += 1;
            }
        },
        None => {
            assert(views(r@) =~= Seq::<Seq<char>>::empty());
        },
    }
    r
}

/// The text of a message line.
fn message_text_exec(line: &str) -> (r: String)
    ensures
        r@ == message_text(line@),
{
    match json_str_at(line, "/message/content") {
        Some(s) => s,
        None => match json_array_len_at(line, "/message/content") {
            Some(n) => {
                let mut texts: Vec<String> = Vec::new();
                let mut j: usize = 0;
                while j < n
                    invariant
                        j <= n,
                        views(texts@) == part_texts(line@, j as nat),
                    decreases n - j,
                {
                    let p = item_pointer_exec("/message/content", j, "text");
                    match json_str_at(line, p.as_str()) {
                        Some(t) => {
                            let ghost before = views(texts@);
                            texts.push(t);
                            assert(views(texts@) =~= before.push(t@));
                        },
                        None => {},
                    }
                    j += 1;
                }
                crate::text::join_strings(&texts, "\n")
            },
            None => String::new(),
        },
    }
}

/// Exec state of [`SessionScan`].
struct SessionScanner {
    first_ts: Option<String>,
    first_prompt: Option<String>,
    last_answer: Option<String>,
    thinking: Vec<String>,
}

/// View of an optional string.
pub open spec fn opt_view(o: Option<String>) -> Option<Seq<char>> {
    match o {
        Some(s) => Some(s@),
        None => None,
    }
}

impl SessionScanner {
    closed spec fn view(&self) -> SessionScan {
        SessionScan {
            first_ts: opt_view(self.first_ts),
            first_prompt: opt_view(self.first_prompt),
            last_answer: opt_view(self.last_answer),
            thinking: views(self.thinking@),
        }
    }

    fn step(&mut self, line: &str)
        ensures
            final(self).view() == session_step(old(self).view(), line@),
    {
        let kind = json_str_at(line, "/type");
        let is_message = match &kind {
            Some(k) => str_eq(k.as_str(), "message"),
            None => false,
        };
        if !is_message || !json_value_at(line, "/message") {
            return;
        }
        let role = match json_str_at(line, "/message/role") {
            Some(r) => r,
            None => return,
        };
        let ts = match json_str_at(line, "/timestamp") {
            Some(t) => t,
            None => String::new(),
        };
        let text = message_text_exec(line);
        let mut parts = line_thinking_exec(line);
        let ghost before = self.thinking@;
        let ghost added = parts@;
        self.thinking.append(&mut parts);
        assert(views(self.thinking@) =~= views(before) + views(added));
        if str_eq(role.as_str(), "user") {
            if self.first_prompt.is_none() {
                self.first_ts = Some(ts);
                self.first_prompt = Some(text);
            }
        } else if str_eq(role.as_str(), "assistant") {
            let tv = chars_of(text.as_str());
            if !blank_exec(tv.as_slice()) {
                self.last_answer = Some(text);
            }
        }
    }
}

/// `DateTime::parse_from_rfc3339(ts)`, then `with_timezone(&Local)`, taken
/// as the local offset from UTC in seconds (`FixedOffset::local_minus_utc`).
/// There is one exactly when the timestamp parses, and it lies within a day
/// either way (chrono's `FixedOffset` keeps it so). Which offset it is
/// depends on the machine's time zone and is not stated.
#[verifier::external_body]
fn rfc3339_local_offset(ts: &str) -> (r: Option<i32>)
    ensures
        r is Some <==> rfc3339_instant(ts@) is Some,
        r matches Some(o) ==> -86400 < o < 86400,
{
    chrono::DateTime::parse_from_rfc3339(ts).ok().map(|dt| dt.with_timezone(&chrono::Local).offset().local_minus_utc())
}

/// The `%Y-%m-%d %H:%M:%S` text chrono writes for the RFC 3339 timestamp
/// `ts` seen at `off` seconds east of UTC; `None` when `ts` does not parse.
pub uninterp spec fn rfc3339_text_at(ts: Seq<char>, off: int) -> Option<Seq<char>>;

/// `DateTime::parse_from_rfc3339(ts)`, then `with_timezone` at the fixed
/// offset `off` (`FixedOffset::east_opt`), then `format("%Y-%m-%d %H:%M:%S")`.
/// There is a text exactly when the timestamp parses.
#[verifier::external_body]
fn rfc3339_format_at(ts: &str, off: i32) -> (r: Option<String>)
    requires
        -86400 < off < 86400,
    ensures
        match r {
            Some(s) => rfc3339_text_at(ts@, off as int) == Some(s@),
            None => rfc3339_text_at(ts@, off as int) is None,
        },
        r is Some <==> rfc3339_instant(ts@) is Some,
{
    let o = chrono::FixedOffset::east_opt(off)?;
    chrono::DateTime::parse_from_rfc3339(ts).ok().map(|dt| dt.with_timezone(&o).format("%Y-%m-%d %H:%M:%S").to_string())
}

/// How a timestamp is shown: an RFC 3339 timestamp as chrono writes it at
/// the local offset (less than a day either way), other text as it is.
pub open spec fn shown_time(ts: Seq<char>, text: Seq<char>) -> bool {
    match rfc3339_instant(ts) {
        None => text == ts,
        Some(_) => exists|off: int| -86400 < off < 86400 && rfc3339_text_at(ts, off) == Some(text),
    }
}

/// A timestamp for display: an RFC 3339 timestamp as local
/// `%Y-%m-%d %H:%M:%S`, any other text as it is.
pub fn local_time_string(ts: &str) -> (r: String)
    ensures
        shown_time(ts@, r@),
{
    match rfc3339_local_offset(ts) {
        Some(off) => match rfc3339_format_at(ts, off) {
            Some(s) => s,
            None => String::from_str(ts),
        },
        None => String::from_str(ts),
    }
}

/// The session shown matches the session of its file, the display time
/// aside; that time is the prompt's timestamp when it is not RFC 3339.
pub open spec fn shown_as(s: TopicDetailSession, key: Seq<char>, v: SessionView) -> bool {
    &&& key == v.key
    &&& s.prompt_preview@ == v.prompt_preview
    &&& s.response_preview@ == v.response_preview
    &&& s.prompt_full@ == v.prompt_full
    &&& s.response_full@ == v.response_full
    &&& s.thinking_full@ == v.thinking_full
    &&& shown_time(v.key, s.created_at@)
}

/// Reads the session of one session file for a topic, with its sort key.
pub fn read_session_file(content: &str, topic_name: &str) -> (r: Option<(String, TopicDetailSession)>)
    ensures
        match file_session(content@, topic_name@) {
            Some(v) => r matches Some(p) && shown_as(p.1, p.0@, v),
            None => r is None,
        },
{
    let lines = lines_of(content);
    let mut scan = SessionScanner { first_ts: None, first_prompt: None, last_answer: None, thinking: Vec::new() };
    assert(scan.view().thinking =~= Seq::<Seq<char>>::empty());
    let mut i: usize = 0;
    while i < lines.len()
        invariant
            i <= lines@.len(),
            views(lines@) == str_lines(content@),
            scan.view() == session_scan(views(lines@).take(i as int)),
        decreases lines@.len() - i,
    {
        assert(views(lines@).take(i + 1).drop_last() =~= views(lines@).take(i as int));
        scan.step(lines[i].as_str());
        i += 1;
    }
    assert(views(lines@).take(lines@.len() as int) =~= views(lines@));
    proof {
        lemma_scan_prompt_ts(views(lines@));
    }
    let prompt = match &scan.first_prompt {
        Some(p) => p.clone(),
        None => return None,
    };
    if !prompt_belongs_to_topic(prompt.as_str(), topic_name) {
        return None;
    }
    let key = match &scan.first_ts {
        Some(t) => t.clone(),
        None => String::new(),
    };
    let response = match &scan.last_answer {
        Some(a) => a.clone(),
        None => String::new(),
    };
    let thinking = crate::text::join_strings(&scan.thinking, "\n---\n");
    let session = TopicDetailSession {
        created_at: local_time_string(key.as_str()),
        prompt_preview: truncate_preview(prompt.as_str()),
        response_preview: truncate_preview(response.as_str()),
        prompt_full: strip_file_wrapper(prompt.as_str()),
        response_full: response,
        thinking_full: thinking,
    };
    Some((key, session))
}


// ---------------------------------------------------------------- ordering

/// `a` sorts before `b` as strings (lexicographically by character).
pub open spec fn key_less(a: Seq<char>, b: Seq<char>) -> bool
    decreases a.len(),
{
    if a.len() == 0 {
        b.len() > 0
    } else if b.len() == 0 {
        false
    } else if a[0] != b[0] {
        a[0] < b[0]
    } else {
        key_less(a.drop_first(), b.drop_first())
    }
}

proof fn lemma_key_less_asym(a: Seq<char>, b: Seq<char>)
    ensures
        key_less(a, b) ==> !key_less(b, a),
        !key_less(a, a),
    decreases a.len(),
{
    if a.len() > 0 && b.len() > 0 && a[0] == b[0] {
        lemma_key_less_asym(a.drop_first(), b.drop_first());
    }
    if a.len() > 0 {
        lemma_key_less_asym(a.drop_first(), a.drop_first());
    }
}

proof fn lemma_key_less_trans(a: Seq<char>, b: Seq<char>, c: Seq<char>)
    requires
        key_less(a, b),
        key_less(b, c),
    ensures
        key_less(a, c),
    decreases a.len(),
{
    if a.len() > 0 && b.len() > 0 && c.len() > 0 && a[0] == b[0] && b[0] == c[0] {
        lemma_key_less_trans(a.drop_first(), b.drop_first(), c.drop_first());
    }
}

proof fn lemma_key_less_total(a: Seq<char>, b: Seq<char>)
    ensures
        a != b ==> key_less(a, b) || key_less(b, a),
    decreases a.len(),
{
    if a.len() > 0 && b.len() > 0 && a[0] == b[0] {
        lemma_key_less_total(a.drop_first(), b.drop_first());
        if a.drop_first() == b.drop_first() {
            assert(a =~= seq![a[0]] + a.drop_first());
            assert(b =~= seq![b[0]] + b.drop_first());
        }
    }
    if a.len() == 0 && b.len() == 0 {
        assert(a =~= b);
    }
}

/// No session comes before one with a newer key.
pub open spec fn is_newest_first(s: Seq<SessionView>) -> bool {
    forall|i: int, j: int| 0 <= i < j < s.len() ==> !key_less(#[trigger] s[i].key, #[trigger] s[j].key)
}

proof fn lemma_insert_position(list: Seq<SessionView>, k: Seq<char>, i: int)
    requires
        0 <= i <= list.len(),
    ensures
        i <= insert_position(list, k, i) <= list.len(),
        forall|j: int| i <= j < insert_position(list, k, i) ==> !key_less(#[trigger] list[j].key, k),
        insert_position(list, k, i) < list.len() ==> key_less(list[insert_position(list, k, i)].key, k),
    decreases list.len() - i,
{
    if i < list.len() && !key_less(list[i].key, k) {
        lemma_insert_position(list, k, i + 1);
    }
}

proof fn lemma_insert_keeps_order(list: Seq<SessionView>, x: SessionView)
    requires
        is_newest_first(list),
    ensures
        is_newest_first(list.insert(insert_position(list, x.key, 0), x)),
{
    let p = insert_position(list, x.key, 0);
    lemma_insert_position(list, x.key, 0);
    let r = list.insert(p, x);
    assert forall|i: int, j: int| 0 <= i < j < r.len() implies !key_less(#[trigger] r[i].key, #[trigger] r[j].key) by {
        if i < p && j == p {
            assert(r[i] == list[i]);
        } else if i == p && j > p {
            assert(r[j] == list[j - 1]);
            let q = list[p].key;
            let y = list[j - 1].key;
            if j - 1 > p {
                assert(!key_less(list[p].key, list[j - 1].key));
                lemma_key_less_total(q, y);
                if q != y {
                    lemma_key_less_trans(y, q, x.key);
                }
            }
            lemma_key_less_asym(y, x.key);
        } else if i < p && j > p {
            assert(r[i] == list[i]);
            assert(r[j] == list[j - 1]);
        } else if j < p {
            assert(r[i] == list[i]);
            assert(r[j] == list[j]);
        } else {
            assert(r[i] == list[i - 1]);
            assert(r[j] == list[j - 1]);
        }
    }
}

/// The sessions come newest first: ordering them puts no session before
/// one with a later key.
pub proof fn newest_first_is_ordered(sessions: Seq<SessionView>)
    ensures
        is_newest_first(newest_first(sessions)),
        newest_first(sessions).len() == sessions.len(),
    decreases sessions.len(),
{
    if sessions.len() > 0 {
        newest_first_is_ordered(sessions.drop_last());
        lemma_insert_keeps_order(newest_first(sessions.drop_last()), sessions.last());
        lemma_insert_position(newest_first(sessions.drop_last()), sessions.last().key, 0);
    }
}

/// Exec [`key_less`].
pub fn key_less_exec(a: &str, b: &str) -> (r: bool)
    ensures
        r == key_less(a@, b@),
{
    let av = chars_of(a);
    let bv = chars_of(b);
    let mut i: usize = 0;
    assert(a@.skip(0) =~= a@);
    assert(b@.skip(0) =~= b@);
    while i < av.len() && i < bv.len() && av[i] == bv[i]
        invariant
            i <= av@.len(),
            i <= bv@.len(),
            av@ == a@,
            bv@ == b@,
            key_less(a@, b@) == key_less(a@.skip(i as int), b@.skip(i as int)),
        decreases av@.len() - i,
    {
        assert(a@.skip(i as int).drop_first() =~= a@.skip(i + 1));
        assert(b@.skip(i as int).drop_first() =~= b@.skip(i + 1));
        i += 1;
    }
    if i == av.len() {
        assert(a@.skip(i as int).len() == 0);
        i < bv.len()
    } else if i == bv.len() {
        false
    } else {
        assert(a@.skip(i as int)[0] == av@[i as int]);
        assert(b@.skip(i as int)[0] == bv@[i as int]);
        av[i] < bv[i]
    }
}

/// Where a session with key `k` goes among sessions ordered newest first:
/// before the first one with an older key (after those with equal keys).
pub open spec fn insert_position(list: Seq<SessionView>, k: Seq<char>, i: int) -> int
    decreases list.len() - i,
{
    if i < 0 || i >= list.len() {
        list.len() as int
    } else if key_less(list[i].key, k) {
        i
    } else {
        insert_position(list, k, i + 1)
    }
}

/// Sessions ordered newest first by key, keeping the given order among
/// equal keys (a stable sort).
pub open spec fn newest_first(sessions: Seq<SessionView>) -> Seq<SessionView>
    decreases sessions.len(),
{
    if sessions.len() == 0 {
        Seq::empty()
    } else {
        let sorted = newest_first(sessions.drop_last());
        sorted.insert(insert_position(sorted, sessions.last().key, 0), sessions.last())
    }
}

/// The sessions of the files that belong to the topic, in file order.
pub open spec fn found_sessions(files: Seq<Seq<char>>, topic_name: Seq<char>) -> Seq<SessionView>
    decreases files.len(),
{
    if files.len() == 0 {
        Seq::empty()
    } else {
        let prev = found_sessions(files.drop_last(), topic_name);
        match file_session(files.last(), topic_name) {
            Some(v) => prev.push(v),
            None => prev,
        }
    }
}

/// The most sessions shown.
pub const MAX_SESSIONS: usize = 10;

/// The sessions shown for a topic: those of its files, newest first, at most ten.
pub open spec fn shown_sessions(files: Seq<Seq<char>>, topic_name: Seq<char>) -> Seq<SessionView> {
    let all = newest_first(found_sessions(files, topic_name));
    if all.len() > MAX_SESSIONS { all.take(MAX_SESSIONS as int) } else { all }
}

/// The topic detail shows at most ten sessions, newest first.
pub proof fn shown_sessions_are_newest_first(files: Seq<Seq<char>>, topic_name: Seq<char>)
    ensures
        shown_sessions(files, topic_name).len() <= MAX_SESSIONS,
        is_newest_first(shown_sessions(files, topic_name)),
{
    newest_first_is_ordered(found_sessions(files, topic_name));
    let all = newest_first(found_sessions(files, topic_name));
    if all.len() > MAX_SESSIONS {
        let t = all.take(MAX_SESSIONS as int);
        assert forall|i: int, j: int| 0 <= i < j < t.len() implies !key_less(#[trigger] t[i].key, #[trigger] t[j].key) by {
            assert(t[i] == all[i]);
            assert(t[j] == all[j]);
        }
    }
}

/// Each shown session stands for the session at the same place.
pub open spec fn shown_list(r: Seq<(String, TopicDetailSession)>, v: Seq<SessionView>) -> bool {
    r.len() == v.len() && forall|i: int| 0 <= i < r.len() ==> shown_as(#[trigger] r[i].1, r[i].0@, v[i])
}

/// Index at which a session with key `k` is inserted.
fn insert_position_exec(list: &Vec<(String, TopicDetailSession)>, k: &str, Ghost(v): Ghost<Seq<SessionView>>) -> (r: usize)
    requires
        shown_list(list@, v),
    ensures
        r as int == insert_position(v, k@, 0),
        r <= list@.len(),
{
    let mut i: usize = 0;
    while i < list.len()
        invariant
            i <= list@.len(),
            shown_list(list@, v),
            insert_position(v, k@, i as int) == insert_position(v, k@, 0),
        decreases list@.len() - i,
    {
        assert(shown_as(list@[i as int].1, list@[i as int].0@, v[i as int]));
        if key_less_exec(list[i].0.as_str(), k) {
            return i;
        }
        i += 1;
    }
    i
}

/// The sessions of a topic from the contents of its session files: newest
/// first by the prompt's timestamp (files with equal timestamps in the given
/// order), at most ten.
pub fn collect_topic_sessions(files: &Vec<String>, topic_name: &str) -> (r: Vec<TopicDetailSession>)
    ensures
        r@.len() == shown_sessions(views(files@), topic_name@).len(),
        forall|i: int| 0 <= i < r@.len() ==> shown_as(
            #[trigger] r@[i],
            shown_sessions(views(files@), topic_name@)[i].key,
            shown_sessions(views(files@), topic_name@)[i],
        ),
{
    let mut sorted: Vec<(String, TopicDetailSession)> = Vec::new();
    let ghost mut found: Seq<SessionView> = Seq::empty();
    let mut f: usize = 0;
    while f < files.len()
        invariant
            f <= files@.len(),
            found == found_sessions(views(files@).take(f as int), topic_name@),
            shown_list(sorted@, newest_first(found)),
        decreases files@.len() - f,
    {
        assert(views(files@).take(f + 1).drop_last() =~= views(files@).take(f as int));
        match read_session_file(files[f].as_str(), topic_name) {
            Some(entry) => {
                let ghost v = file_session(files@[f as int]@, topic_name@).unwrap();
                let ghost old_sorted = newest_first(found);
                let pos = insert_position_exec(&sorted, entry.0.as_str(), Ghost(old_sorted));
                let ghost before = sorted@;
                sorted.insert(pos, entry);
                proof {
                    let nf = found.push(v);
                    assert(nf.drop_last() =~= found);
                    let new_sorted = old_sorted.insert(pos as int, v);
                    assert(newest_first(nf) == new_sorted);
                    assert forall|i: int| 0 <= i < sorted@.len() implies shown_as(
                        #[trigger] sorted@[i].1,
                        sorted@[i].0@,
                        new_sorted[i],
                    ) by {
                        if i < pos {
                            assert(sorted@[i] == before[i]);
                        } else if i > pos {
                            assert(sorted@[i] == before[i - 1]);
                        }
                    }
                    found = nf;
                }
            },
            None => {},
        }
        f += 1;
    }
    assert(views(files@).take(files@.len() as int) =~= views(files@));
    let ghost all = newest_first(found);
    let n = if sorted.len() > MAX_SESSIONS { MAX_SESSIONS } else { sorted.len() };
    let mut r: Vec<TopicDetailSession> = Vec::new();
    let mut i: usize = 0;
    while i < n
        invariant
            n <= sorted@.len(),
            n == (if all.len() > MAX_SESSIONS { MAX_SESSIONS as int } else { all.len() as int }),
            shown_list(sorted@, all),
            i <= n,
            r@.len() == i,
            forall|j: int| 0 <= j < i ==> shown_as(#[trigger] r@[j], all[j].key, all[j]),
        decreases n - i,
    {
        let e = &sorted[i];
        assert(shown_as(sorted@[i as int].1, sorted@[i as int].0@, all[i as int]));
        r.push(TopicDetailSession {
            created_at: e.1.created_at.clone(),
            prompt_preview: e.1.prompt_preview.clone(),
            response_preview: e.1.response_preview.clone(),
            prompt_full: e.1.prompt_full.clone(),
            response_full: e.1.response_full.clone(),
            thinking_full: e.1.thinking_full.clone(),
        });
        i += 1;
    }
    r
}

/// The error when the topic detail is asked for an unknown topic.
pub fn topic_not_found_message(topic_name: &str) -> (r: String)
    ensures
        r@ == "トピック '"@ + topic_name@ + "' が見つかりません"@,
{
    let mut r = String::from_str("トピック '");
    r.append(topic_name);
    r.append("' が見つかりません");
    r
}
} // verus!
