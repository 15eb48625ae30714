//! RSS 2.0 and Atom parsing over the XML event stream.
use vstd::prelude::*;
use vstd::string::*;
use crate::error::AppError;
use crate::fetcher::date::{feed_date, parse_date, FeedTime};
use crate::fetcher::xml::{
    lossy_string, opt_str, tag_name, tag_name_exec, utf8_lossy, xml_event_stream, xml_next_event,
    xml_pending, xml_reader_for, XmlEvent, XmlEventView,
};
use crate::text::{
    char_run_end, char_run_end_exec, chars_of, find, find_exec, is_ws, lemma_find_from_first, lemma_find_from_some,
    lemma_trim_start_none, lemma_trim_start_ws, occurs_at, starts_with,
    starts_with_exec, str_eq, take_chars, take_chars_exec, trim, trim_exec, trim_start,
    trim_start_char, trim_start_index,
};

verus! {

/// One entry of a feed.
pub struct FeedItem {
    pub title: String,
    pub link: String,
    pub description: Option<String>,
    pub pub_date: Option<FeedTime>,
    pub guid: Option<String>,
}

/// A parsed feed.
pub struct Feed {
    pub title: Option<String>,
    pub items: Vec<FeedItem>,
}

/// The mathematical content of a [`FeedItem`].
pub struct FeedItemView {
    pub title: Seq<char>,
    pub link: Seq<char>,
    pub description: Option<Seq<char>>,
    pub pub_date: Option<FeedTime>,
    pub guid: Option<Seq<char>>,
}

/// The mathematical content of a [`Feed`].
pub struct FeedView {
    pub title: Option<Seq<char>>,
    pub items: Seq<FeedItemView>,
}

impl View for FeedItem {
    type V = FeedItemView;

    open spec fn view(&self) -> FeedItemView {
        FeedItemView {
            title: self.title@,
            link: self.link@,
            description: opt_str(self.description),
            pub_date: self.pub_date,
            guid: opt_str(self.guid),
        }
    }
}

/// The views of a list of feed items.
pub open spec fn item_views(items: Seq<FeedItem>) -> Seq<FeedItemView> {
    items.map_values(|i: FeedItem| i@)
}

impl View for Feed {
    type V = FeedView;

    open spec fn view(&self) -> FeedView {
        FeedView { title: opt_str(self.title), items: item_views(self.items@) }
    }
}

/// A copy of an optional string.
pub fn copy_opt(o: &Option<String>) -> (r: Option<String>)
    ensures
        r == *o,
{
    match o {
        Some(s) => Some(s.clone()),
        None => None,
    }
}

impl FeedItem {
    /// A copy of the item.
    pub fn duplicate(&self) -> (r: FeedItem)
        ensures
            r@ == self@,
    {
        FeedItem {
            title: self.title.clone(),
            link: self.link.clone(),
            description: copy_opt(&self.description),
            pub_date: self.pub_date,
            guid: copy_opt(&self.guid),
        }
    }
}

/// A copy of a list of feed items.
pub fn copy_items(items: &Vec<FeedItem>) -> (r: Vec<FeedItem>)
    ensures
        item_views(r@) == item_views(items@),
{
    let mut r: Vec<FeedItem> = Vec::new();
    let mut i: usize = 0;
    while i < items.len()
        invariant
            i <= items@.len(),
            item_views(r@) == item_views(items@.take(i as int)),
        decreases items@.len() - i,
    {
        r.push(items[i].duplicate());
        proof {
            assert(item_views(items@.take(i + 1)) =~= item_views(items@.take(i as int)).push(items@[i as int]@));
        }
        i += 1;
    }
    assert(items@.take(items@.len() as int) =~= items@);
    r
}

impl Feed {
    /// A copy of the feed.
    pub fn duplicate(&self) -> (r: Feed)
        ensures
            r@ == self@,
    {
        Feed { title: copy_opt(&self.title), items: copy_items(&self.items) }
    }
}

/// `Some(s)` unless `s` is empty.
pub open spec fn non_empty(s: Seq<char>) -> Option<Seq<char>> {
    if s.len() == 0 { None } else { Some(s) }
}

/// The item built from the collected texts.
pub open spec fn collected_item(
    title: Seq<char>,
    link: Seq<char>,
    desc: Seq<char>,
    date: Seq<char>,
    guid: Seq<char>,
) -> FeedItemView {
    FeedItemView {
        title,
        link,
        description: non_empty(desc),
        pub_date: feed_date(date),
        guid: non_empty(guid),
    }
}

/// Exec [`collected_item`].
fn build_item(title: &String, link: &String, desc: &String, date: &String, guid: &String) -> (r: FeedItem)
    ensures
        r@ == collected_item(title@, link@, desc@, date@, guid@),
{
    FeedItem {
        title: title.clone(),
        link: link.clone(),
        description: if desc.as_str().is_empty() { None } else { Some(desc.clone()) },
        pub_date: parse_date(date.as_str()),
        guid: if guid.as_str().is_empty() { None } else { Some(guid.clone()) },
    }
}

/// The text an event carries (`unescape().unwrap_or_default()`).
pub open spec fn text_of(t: Option<Seq<char>>) -> Seq<char> {
    match t {
        Some(s) => s,
        None => Seq::empty(),
    }
}

// ---------------------------------------------------------------- RSS 2.0

/// The state of the RSS 2.0 scan.
pub struct RssScan {
    pub in_item: bool,
    pub in_title: bool,
    pub in_link: bool,
    pub in_desc: bool,
    pub in_pub_date: bool,
    pub in_guid: bool,
    pub title: Seq<char>,
    pub link: Seq<char>,
    pub desc: Seq<char>,
    pub pub_date: Seq<char>,
    pub guid: Seq<char>,
    pub items: Seq<FeedItemView>,
}

/// The scan before any event.
pub open spec fn rss_initial() -> RssScan {
    RssScan {
        in_item: false,
        in_title: false,
        in_link: false,
        in_desc: false,
        in_pub_date: false,
        in_guid: false,
        title: Seq::empty(),
        link: Seq::empty(),
        desc: Seq::empty(),
        pub_date: Seq::empty(),
        guid: Seq::empty(),
        items: Seq::empty(),
    }
}

/// An opening (or self-closing) tag: inside an item, sets the flag of the
/// field it starts (channel-level elements fill no item).
pub open spec fn rss_open(s: RssScan, n: Seq<char>) -> RssScan {
    if n == "item"@ {
        RssScan { in_item: true, ..s }
    } else if n == "title"@ && s.in_item {
        RssScan { in_title: true, ..s }
    } else if n == "link"@ && s.in_item {
        RssScan { in_link: true, ..s }
    } else if n == "description"@ && s.in_item {
        RssScan { in_desc: true, ..s }
    } else if n == "pubdate"@ && s.in_item {
        RssScan { in_pub_date: true, ..s }
    } else if n == "guid"@ && s.in_item {
        RssScan { in_guid: true, ..s }
    } else {
        s
    }
}

/// Character data: appended to the first field whose flag is set.
pub open spec fn rss_text(s: RssScan, t: Seq<char>) -> RssScan {
    if s.in_title {
        RssScan { title: s.title + t, ..s }
    } else if s.in_link {
        RssScan { link: s.link + t, ..s }
    } else if s.in_desc {
        RssScan { desc: s.desc + t, ..s }
    } else if s.in_pub_date {
        RssScan { pub_date: s.pub_date + t, ..s }
    } else if s.in_guid {
        RssScan { guid: s.guid + t, ..s }
    } else {
        s
    }
}

/// A closing tag: `</item>` keeps the item when it has a title and a link,
/// then clears the collected texts; other tags clear their flag.
pub open spec fn rss_close(s: RssScan, n: Seq<char>) -> RssScan {
    if n == "item"@ {
        let items = if s.title.len() > 0 && s.link.len() > 0 {
            s.items.push(collected_item(s.title, s.link, s.desc, s.pub_date, s.guid))
        } else {
            s.items
        };
        RssScan {
            in_item: false,
            title: Seq::empty(),
            link: Seq::empty(),
            desc: Seq::empty(),
            pub_date: Seq::empty(),
            guid: Seq::empty(),
            items,
            ..s
        }
    } else if n == "title"@ {
        RssScan { in_title: false, ..s }
    } else if n == "link"@ {
        RssScan { in_link: false, ..s }
    } else if n == "description"@ {
        RssScan { in_desc: false, ..s }
    } else if n == "pubdate"@ {
        RssScan { in_pub_date: false, ..s }
    } else if n == "guid"@ {
        RssScan { in_guid: false, ..s }
    } else {
        s
    }
}

/// One event of the RSS 2.0 scan.
pub open spec fn rss_step(s: RssScan, e: XmlEventView) -> RssScan {
    match e {
        XmlEventView::Open { name, href } => rss_open(s, tag_name(name)),
        XmlEventView::Text { text } => rss_text(s, text_of(text)),
        XmlEventView::End { name } => rss_close(s, tag_name(name)),
        _ => s,
    }
}

/// The RSS 2.0 scan over a list of events.
pub open spec fn rss_scan(events: Seq<XmlEventView>) -> RssScan
    decreases events.len(),
{
    if events.len() == 0 {
        rss_initial()
    } else {
        rss_step(rss_scan(events.drop_last()), events.last())
    }
}

/// The feed an RSS 2.0 document yields: the items of the scan, no title.
pub open spec fn rss_feed(xml: Seq<char>) -> FeedView {
    FeedView { title: None, items: rss_scan(xml_event_stream(xml)).items }
}

struct RssScanner {
    in_item: bool,
    in_title: bool,
    in_link: bool,
    in_desc: bool,
    in_pub_date: bool,
    in_guid: bool,
    title: String,
    link: String,
    desc: String,
    pub_date: String,
    guid: String,
    items: Vec<FeedItem>,
}

impl View for RssScanner {
    type V = RssScan;

    closed spec fn view(&self) -> RssScan {
        RssScan {
            in_item: self.in_item,
            in_title: self.in_title,
            in_link: self.in_link,
            in_desc: self.in_desc,
            in_pub_date: self.in_pub_date,
            in_guid: self.in_guid,
            title: self.title@,
            link: self.link@,
            desc: self.desc@,
            pub_date: self.pub_date@,
            guid: self.guid@,
            items: item_views(self.items@),
        }
    }
}

impl RssScanner {
    fn new() -> (r: RssScanner)
        ensures
            r@ == rss_initial(),
    {
        let r = RssScanner {
            in_item: false,
            in_title: false,
            in_link: false,
            in_desc: false,
            in_pub_date: false,
            in_guid: false,
            title: String::new(),
            link: String::new(),
            desc: String::new(),
            pub_date: String::new(),
            guid: String::new(),
            items: Vec::new(),
        };
        assert(item_views(r.items@) =~= Seq::<FeedItemView>::empty());
        r
    }

    fn open(&mut self, n: &str)
        ensures
            final(self)@ == rss_open(old(self)@, n@),
    {
        if str_eq(n, "item") {
            self.in_item = true;
        } else if str_eq(n, "title") && self.in_item {
            self.in_title = true;
        } else if str_eq(n, "link") && self.in_item {
            self.in_link = true;
        } else if str_eq(n, "description") && self.in_item {
            self.in_desc = true;
        } else if str_eq(n, "pubdate") && self.in_item {
            self.in_pub_date = true;
        } else if str_eq(n, "guid") && self.in_item {
            self.in_guid = true;
        }
    }

    fn text(&mut self, t: &str)
        ensures
            final(self)@ == rss_text(old(self)@, t@),
    {
        if self.in_title {
            self.title.append(t);
        } else if self.in_link {
            self.link.append(t);
        } else if self.in_desc {
            self.desc.append(t);
        } else if self.in_pub_date {
            self.pub_date.append(t);
        } else if self.in_guid {
            self.guid.append(t);
        }
    }

    fn close(&mut self, n: &str)
        ensures
            final(self)@ == rss_close(old(self)@, n@),
    {
        if str_eq(n, "item") {
            if !self.title.as_str().is_empty() && !self.link.as_str().is_empty() {
                let item = build_item(&self.title, &self.link, &self.desc, &self.pub_date, &self.guid);
                let ghost before = self.items@;
                self.items.push(item);
                assert(item_views(self.items@) =~= item_views(before).push(item@));
            }
            self.in_item = false;
            self.title = String::new();
            self.link = String::new();
            self.desc = String::new();
            self.pub_date = String::new();
            self.guid = String::new();
        } else if str_eq(n, "title") {
            self.in_title = false;
        } else if str_eq(n, "link") {
            self.in_link = false;
        } else if str_eq(n, "description") {
            self.in_desc = false;
        } else if str_eq(n, "pubdate") {
            self.in_pub_date = false;
        } else if str_eq(n, "guid") {
            self.in_guid = false;
        }
    }

    fn step(&mut self, e: &XmlEvent)
        ensures
            final(self)@ == rss_step(old(self)@, e@),
    {
        match e {
            XmlEvent::Open { name, href: _ } => {
                let n = tag_name_exec(name);
                self.open(n.as_str());
            },
            XmlEvent::Text { text } => {
                match text {
                    Some(t) => self.text(t.as_str()),
                    None => {
                        self.text("");
                        proof {
                            reveal_strlit("");
                        }
                    },
                }
            },
            XmlEvent::End { name } => {
                let n = tag_name_exec(name);
                self.close(n.as_str());
            },
            _ => {},
        }
    }
}

/// Parses an RSS 2.0 document. Never fails: reading stops at the first
/// malformed point, keeping what was collected before it.
pub fn parse_rss2(xml: &str) -> (r: Result<Feed, AppError>)
    ensures
        r matches Ok(f) && f@ == rss_feed(xml@),
{
    let mut reader = xml_reader_for(xml);
    let ghost stream = xml_event_stream(xml@);
    let mut scan = RssScanner::new();
    let ghost mut done: Seq<XmlEventView> = Seq::empty();
    loop
        invariant_except_break
            xml_pending(reader).len() > 0,
            done + xml_pending(reader) == stream,
        invariant
            scan@ == rss_scan(done),
            stream.len() > 0,
            stream.last().is_final(),
            forall|i: int| 0 <= i < stream.len() - 1 ==> !(#[trigger] stream[i]).is_final(),
        ensures
            done == stream,
        decreases xml_pending(reader).len(),
    {
        let ghost pend = xml_pending(reader);
        let e = xml_next_event(&mut reader);
        proof {
            assert(pend[0] == stream[done.len() as int]);
            assert((done.push(e@)).drop_last() =~= done);
            assert(done.push(e@) + xml_pending(reader) =~= stream);
        }
        scan.step(&e);
        proof {
            done = done.push(e@);
        }
        match e {
            XmlEvent::Eof => {
                assert(done =~= stream);
                break;
            },
            XmlEvent::Error => {
                assert(done =~= stream);
                break;
            },
            _ => {
                assert(xml_pending(reader).len() > 0) by {
                    if xml_pending(reader).len() == 0 {
                        assert(done =~= stream);
                        assert(!stream[stream.len() - 1].is_final());
                    }
                }
            },
        }
    }
    Ok(Feed { title: None, items: scan.items })
}


// ---------------------------------------------------------------- Atom

/// The state of the Atom scan.
pub struct AtomScan {
    pub in_entry: bool,
    pub in_title: bool,
    pub in_desc: bool,
    pub in_pub_date: bool,
    pub in_id: bool,
    pub title: Seq<char>,
    pub link: Seq<char>,
    pub desc: Seq<char>,
    pub pub_date: Seq<char>,
    pub id: Seq<char>,
    pub items: Seq<FeedItemView>,
}

/// The scan before any event.
pub open spec fn atom_initial() -> AtomScan {
    AtomScan {
        in_entry: false,
        in_title: false,
        in_desc: false,
        in_pub_date: false,
        in_id: false,
        title: Seq::empty(),
        link: Seq::empty(),
        desc: Seq::empty(),
        pub_date: Seq::empty(),
        id: Seq::empty(),
        items: Seq::empty(),
    }
}

/// An opening (or self-closing) tag: inside an entry, sets the flag of the
/// field it starts (feed-level elements fill no entry); `<link>` inside an
/// entry takes its `href`.
pub open spec fn atom_open(s: AtomScan, n: Seq<char>, href: Option<Seq<u8>>) -> AtomScan {
    if n == "entry"@ {
        AtomScan { in_entry: true, ..s }
    } else if n == "title"@ && s.in_entry {
        AtomScan { in_title: true, ..s }
    } else if n == "link"@ && s.in_entry {
        match href {
            Some(h) => AtomScan { link: utf8_lossy(h), ..s },
            None => s,
        }
    } else if (n == "summary"@ || n == "content"@) && s.in_entry {
        AtomScan { in_desc: true, ..s }
    } else if (n == "published"@ || n == "updated"@) && s.in_entry {
        if s.pub_date.len() == 0 { AtomScan { in_pub_date: true, ..s } } else { s }
    } else if n == "id"@ && s.in_entry {
        AtomScan { in_id: true, ..s }
    } else {
        s
    }
}

/// Character data: appended to the first field whose flag is set.
pub open spec fn atom_text(s: AtomScan, t: Seq<char>) -> AtomScan {
    if s.in_title {
        AtomScan { title: s.title + t, ..s }
    } else if s.in_desc {
        AtomScan { desc: s.desc + t, ..s }
    } else if s.in_pub_date {
        AtomScan { pub_date: s.pub_date + t, ..s }
    } else if s.in_id {
        AtomScan { id: s.id + t, ..s }
    } else {
        s
    }
}

/// A closing tag: `</entry>` keeps the entry when it has a title, then
/// clears the collected texts; other tags clear their flag.
pub open spec fn atom_close(s: AtomScan, n: Seq<char>) -> AtomScan {
    if n == "entry"@ {
        let items = if s.title.len() > 0 {
            s.items.push(collected_item(s.title, s.link, s.desc, s.pub_date, s.id))
        } else {
            s.items
        };
        AtomScan {
            in_entry: false,
            title: Seq::empty(),
            link: Seq::empty(),
            desc: Seq::empty(),
            pub_date: Seq::empty(),
            id: Seq::empty(),
            items,
            ..s
        }
    } else if n == "title"@ {
        AtomScan { in_title: false, ..s }
    } else if n == "summary"@ || n == "content"@ {
        AtomScan { in_desc: false, ..s }
    } else if n == "published"@ || n == "updated"@ {
        AtomScan { in_pub_date: false, ..s }
    } else if n == "id"@ {
        AtomScan { in_id: false, ..s }
    } else {
        s
    }
}

/// One event of the Atom scan.
pub open spec fn atom_step(s: AtomScan, e: XmlEventView) -> AtomScan {
    match e {
        XmlEventView::Open { name, href } => atom_open(s, tag_name(name), href),
        XmlEventView::Text { text } => atom_text(s, text_of(text)),
        XmlEventView::End { name } => atom_close(s, tag_name(name)),
        _ => s,
    }
}

/// The Atom scan over a list of events.
pub open spec fn atom_scan(events: Seq<XmlEventView>) -> AtomScan
    decreases events.len(),
{
    if events.len() == 0 {
        atom_initial()
    } else {
        atom_step(atom_scan(events.drop_last()), events.last())
    }
}

/// Once an entry's date was read (and its element closed), no event short
/// of `</entry>` changes it: a later `<published>` or `<updated>` adds
/// nothing, and no other element reaches the date.
proof fn lemma_atom_date_kept_step(s: AtomScan, e: XmlEventView)
    requires
        s.pub_date.len() > 0,
        !s.in_pub_date,
        !(e matches XmlEventView::End { name } && tag_name(name) == "entry"@),
    ensures
        atom_step(s, e).pub_date == s.pub_date,
        !atom_step(s, e).in_pub_date,
{
}

/// The first date of an entry is its date: after a `<published>` or
/// `<updated>` text was read, the date stays what it is for every later
/// event of the entry, so a second date element is ignored.
pub proof fn atom_first_date_is_kept(pre: Seq<XmlEventView>, post: Seq<XmlEventView>)
    requires
        atom_scan(pre).pub_date.len() > 0,
        !atom_scan(pre).in_pub_date,
        forall|i: int| 0 <= i < post.len() ==> !(#[trigger] post[i] matches XmlEventView::End { name } && tag_name(name) == "entry"@),
    ensures
        atom_scan(pre + post).pub_date == atom_scan(pre).pub_date,
        !atom_scan(pre + post).in_pub_date,
    decreases post.len(),
{
    if post.len() == 0 {
        assert(pre + post =~= pre);
    } else {
        let d = post.drop_last();
        assert forall|i: int| 0 <= i < d.len() implies !(#[trigger] d[i] matches XmlEventView::End { name } && tag_name(name) == "entry"@) by {
            assert(d[i] == post[i]);
        }
        atom_first_date_is_kept(pre, d);
        assert((pre + post).drop_last() =~= pre + d);
        assert((pre + post).last() == post[post.len() - 1]);
        lemma_atom_date_kept_step(atom_scan(pre + d), post.last());
    }
}

/// An entry that closes after its first date was read is kept with that
/// date, whatever date elements came after the first.
pub proof fn atom_entry_has_first_date(pre: Seq<XmlEventView>, post: Seq<XmlEventView>, end: XmlEventView)
    requires
        atom_scan(pre).pub_date.len() > 0,
        !atom_scan(pre).in_pub_date,
        forall|i: int| 0 <= i < post.len() ==> !(#[trigger] post[i] matches XmlEventView::End { name } && tag_name(name) == "entry"@),
        end matches XmlEventView::End { name } && tag_name(name) == "entry"@,
        atom_scan(pre + post).title.len() > 0,
    ensures
        atom_scan(pre + post.push(end)).items.last().pub_date == feed_date(atom_scan(pre).pub_date),
{
    atom_first_date_is_kept(pre, post);
    assert((pre + post.push(end)).drop_last() =~= pre + post);
    assert((pre + post.push(end)).last() == end);
}

/// The feed an Atom document yields: the items of the scan, no title.
pub open spec fn atom_feed(xml: Seq<char>) -> FeedView {
    FeedView { title: None, items: atom_scan(xml_event_stream(xml)).items }
}

struct AtomScanner {
    in_entry: bool,
    in_title: bool,
    in_desc: bool,
    in_pub_date: bool,
    in_id: bool,
    title: String,
    link: String,
    desc: String,
    pub_date: String,
    id: String,
    items: Vec<FeedItem>,
}

impl View for AtomScanner {
    type V = AtomScan;

    closed spec fn view(&self) -> AtomScan {
        AtomScan {
            in_entry: self.in_entry,
            in_title: self.in_title,
            in_desc: self.in_desc,
            in_pub_date: self.in_pub_date,
            in_id: self.in_id,
            title: self.title@,
            link: self.link@,
            desc: self.desc@,
            pub_date: self.pub_date@,
            id: self.id@,
            items: item_views(self.items@),
        }
    }
}

impl AtomScanner {
    fn new() -> (r: AtomScanner)
        ensures
            r@ == atom_initial(),
    {
        let r = AtomScanner {
            in_entry: false,
            in_title: false,
            in_desc: false,
            in_pub_date: false,
            in_id: false,
            title: String::new(),
            link: String::new(),
            desc: String::new(),
            pub_date: String::new(),
            id: String::new(),
            items: Vec::new(),
        };
        assert(item_views(r.items@) =~= Seq::<FeedItemView>::empty());
        r
    }

    fn open(&mut self, n: &str, href: &Option<Vec<u8>>)
        ensures
            final(self)@ == atom_open(old(self)@, n@, opt_bytes_view(*href)),
    {
        if str_eq(n, "entry") {
            self.in_entry = true;
        } else if str_eq(n, "title") && self.in_entry {
            self.in_title = true;
        } else if str_eq(n, "link") && self.in_entry {
            match href {
                Some(h) => {
                    self.link = lossy_string(h.as_slice());
                },
                None => {},
            }
        } else if (str_eq(n, "summary") || str_eq(n, "content")) && self.in_entry {
            self.in_desc = true;
        } else if (str_eq(n, "published") || str_eq(n, "updated")) && self.in_entry {
            if self.pub_date.as_str().is_empty() {
                self.in_pub_date = true;
            }
        } else if str_eq(n, "id") && self.in_entry {
            self.in_id = true;
        }
    }

    fn text(&mut self, t: &str)
        ensures
            final(self)@ == atom_text(old(self)@, t@),
    {
        if self.in_title {
            self.title.append(t);
        } else if self.in_desc {
            self.desc.append(t);
        } else if self.in_pub_date {
            self.pub_date.append(t);
        } else if self.in_id {
            self.id.append(t);
        }
    }

    fn close(&mut self, n: &str)
        ensures
            final(self)@ == atom_close(old(self)@, n@),
    {
        if str_eq(n, "entry") {
            if !self.title.as_str().is_empty() {
                let item = build_item(&self.title, &self.link, &self.desc, &self.pub_date, &self.id);
                let ghost before = self.items@;
                self.items.push(item);
                assert(item_views(self.items@) =~= item_views(before).push(item@));
            }
            self.in_entry = false;
            self.title = String::new();
            self.link = String::new();
            self.desc = String::new();
            self.pub_date = String::new();
            self.id = String::new();
        } else if str_eq(n, "title") {
            self.in_title = false;
        } else if str_eq(n, "summary") || str_eq(n, "content") {
            self.in_desc = false;
        } else if str_eq(n, "published") || str_eq(n, "updated") {
            self.in_pub_date = false;
        } else if str_eq(n, "id") {
            self.in_id = false;
        }
    }

    fn step(&mut self, e: &XmlEvent)
        ensures
            final(self)@ == atom_step(old(self)@, e@),
    {
        match e {
            XmlEvent::Open { name, href } => {
                let n = tag_name_exec(name);
                self.open(n.as_str(), href);
            },
            XmlEvent::Text { text } => {
                match text {
                    Some(t) => self.text(t.as_str()),
                    None => {
                        self.text("");
                        proof {
                            reveal_strlit("");
                        }
                    },
                }
            },
            XmlEvent::End { name } => {
                let n = tag_name_exec(name);
                self.close(n.as_str());
            },
            _ => {},
        }
    }
}

/// View of an optional byte vector.
pub open spec fn opt_bytes_view(o: Option<Vec<u8>>) -> Option<Seq<u8>> {
    match o {
        Some(v) => Some(v@),
        None => None,
    }
}

/// Parses an Atom document. Never fails: reading stops at the first
/// malformed point, keeping what was collected before it.
pub fn parse_atom(xml: &str) -> (r: Result<Feed, AppError>)
    ensures
        r matches Ok(f) && f@ == atom_feed(xml@),
{
    let mut reader = xml_reader_for(xml);
    let ghost stream = xml_event_stream(xml@);
    let mut scan = AtomScanner::new();
    let ghost mut done: Seq<XmlEventView> = Seq::empty();
    loop
        invariant_except_break
            xml_pending(reader).len() > 0,
            done + xml_pending(reader) == stream,
        invariant
            scan@ == atom_scan(done),
            stream.len() > 0,
            stream.last().is_final(),
            forall|i: int| 0 <= i < stream.len() - 1 ==> !(#[trigger] stream[i]).is_final(),
        ensures
            done == stream,
        decreases xml_pending(reader).len(),
    {
        let ghost pend = xml_pending(reader);
        let e = xml_next_event(&mut reader);
        proof {
            assert(pend[0] == stream[done.len() as int]);
            assert((done.push(e@)).drop_last() =~= done);
            assert(done.push(e@) + xml_pending(reader) =~= stream);
        }
        scan.step(&e);
        proof {
            done = done.push(e@);
        }
        match e {
            XmlEvent::Eof => {
                assert(done =~= stream);
                break;
            },
            XmlEvent::Error => {
                assert(done =~= stream);
                break;
            },
            _ => {
                assert(xml_pending(reader).len() > 0) by {
                    if xml_pending(reader).len() == 0 {
                        assert(done =~= stream);
                        assert(!stream[stream.len() - 1].is_final());
                    }
                }
            },
        }
    }
    Ok(Feed { title: None, items: scan.items })
}


// ---------------------------------------------------------------- dispatch

/// `t` without a leading `<?xml ...?>` declaration and the whitespace after it.
pub open spec fn after_declaration(t: Seq<char>) -> Seq<char> {
    if starts_with(t, "<?xml"@) && find(t, "?>"@) is Some {
        trim_start(t.skip(find(t, "?>"@).unwrap() + 2))
    } else {
        t
    }
}

/// `s` without a leading `<?xml ...?>` declaration, without a
/// `<!DOCTYPE ...>` that then leads (whether or not a declaration came
/// first), and without the whitespace around them.
pub open spec fn xml_body(s: Seq<char>) -> Seq<char> {
    let after = after_declaration(trim_start(s));
    if starts_with(after, "<!DOCTYPE"@) && find(after, ">"@) is Some {
        trim_start(after.skip(find(after, ">"@).unwrap() + 1))
    } else {
        after
    }
}

/// Removes the XML declaration and the DOCTYPE.
pub fn strip_xml_header(s: &str) -> (r: &str)
    ensures
        r@ == xml_body(s@),
{
    let v = chars_of(s);
    let n = v.len();
    let a = trim_start_index(v.as_slice());
    let t = &v[a..n];
    assert(t@ =~= trim_start(s@));
    let decl = chars_of("<?xml");
    let close = chars_of("?>");
    // `k`: where the text after the declaration starts in `v`
    let mut k: usize = a;
    if starts_with_exec(t, decl.as_slice()) {
        match find_exec(t, close.as_slice()) {
            Some(end) => {
                proof {
                    lemma_find_from_some(t@, close@, 0);
                    reveal_strlit("?>");
                }
                let u = &t[end + 2..t.len()];
                assert(u@ =~= t@.skip(end + 2));
                let b = trim_start_index(u);
                k = a + end + 2 + b;
                assert(v@.subrange(k as int, n as int) =~= trim_start(u@));
            },
            None => {},
        }
    }
    let after = &v[k..n];
    assert(after@ =~= after_declaration(trim_start(s@)));
    let doctype = chars_of("<!DOCTYPE");
    let gt = chars_of(">");
    if starts_with_exec(after, doctype.as_slice()) {
        match find_exec(after, gt.as_slice()) {
            Some(d) => {
                proof {
                    lemma_find_from_some(after@, gt@, 0);
                    reveal_strlit(">");
                }
                let w = &after[d + 1..after.len()];
                assert(w@ =~= after@.skip(d + 1));
                let c = trim_start_index(w);
                let m = k + d + 1 + c;
                let r = s.substring_char(m, n);
                assert(r@ =~= trim_start(w@));
                return r;
            },
            None => {},
        }
    }
    let r = s.substring_char(k, n);
    assert(r@ =~= after@);
    r
}

/// `s` without leading byte-order marks (U+FEFF, then U+FFFE).
pub open spec fn without_bom(s: Seq<char>) -> Seq<char> {
    trim_start_char(trim_start_char(s, '\u{feff}'), '\u{fffe}')
}

/// What a feed document yields: by its first tag, an RSS 2.0 feed or an
/// Atom feed of the text after the XML header; otherwise the error message
/// with up to 200 characters of the text.
pub open spec fn feed_of(xml: Seq<char>) -> Result<FeedView, Seq<char>> {
    let cleaned = xml_body(without_bom(xml));
    let trimmed = trim(cleaned);
    if starts_with(trimmed, "<rss"@) {
        Ok(rss_feed(cleaned))
    } else if starts_with(trimmed, "<feed"@) {
        Ok(atom_feed(cleaned))
    } else {
        Err("Unknown feed format (preview): "@ + take_chars(trimmed, 200))
    }
}

/// A byte-order mark and an XML declaration in front of a document change
/// nothing: it parses as the same feed, or fails with the same message.
/// (Text that itself opens with a declaration, a DOCTYPE or a byte-order
/// mark is left out.)
pub proof fn bom_and_declaration_change_nothing(s: Seq<char>)
    requires
        !starts_with(trim_start(s), "<?xml"@),
        !starts_with(trim_start(s), "<!DOCTYPE"@),
        !starts_with(trim_start(s), seq!['\u{feff}']),
        !(s.len() > 0 && s[0] == '\u{fffe}'),
    ensures
        feed_of(seq!['\u{feff}'] + "<?xml version='1.0'?>\n"@ + s) == feed_of(s),
{
    let decl = "<?xml version='1.0'?>\n"@;
    reveal_strlit("<?xml version='1.0'?>\n");
    reveal_strlit("<?xml");
    reveal_strlit("?>");
    let p = seq!['\u{feff}'] + decl + s;
    let ds = decl + s;
    // the mark is dropped, nothing else
    assert(p[0] == '\u{feff}');
    assert(p[1] == '<');
    assert(char_run_end(p, '\u{feff}', 1) == 1);
    assert(p.skip(1) =~= ds);
    assert(ds[0] == '<');
    assert(char_run_end(ds, '\u{fffe}', 0) == 0);
    assert(ds.skip(0) =~= ds);
    assert(without_bom(p) == ds);
    // the declaration is dropped, with the line break after it
    assert(!is_ws(ds[0]));
    lemma_trim_start_none(ds);
    assert(ds.take(5) =~= "<?xml"@);
    assert(starts_with(ds, "<?xml"@));
    let close = "?>"@;
    assert(ds.subrange(19, 21) =~= close);
    assert forall|k: int| 0 <= k < 19 implies !occurs_at(ds, close, k) by {
        assert(ds[k] == decl[k]);
        if occurs_at(ds, close, k) {
            assert(ds.subrange(k, k + 2)[0] == ds[k]);
            assert(ds.subrange(k, k + 2)[1] == ds[k + 1]);
        }
    }
    lemma_find_from_first(ds, close, 0, 19);
    assert(ds.skip(21) =~= seq!['\n'] + s);
    lemma_trim_start_ws('\n', s);
    assert(after_declaration(trim_start(ds)) == trim_start(s));
    assert(xml_body(ds) == trim_start(s));
    // the plain text keeps its start
    if s.len() > 0 {
        if s[0] == '\u{feff}' {
            assert(!is_ws(s[0]));
            lemma_trim_start_none(s);
            assert(s.take(1) =~= seq!['\u{feff}']);
        }
        assert(char_run_end(s, '\u{feff}', 0) == 0);
        assert(char_run_end(s, '\u{fffe}', 0) == 0);
    }
    assert(s.skip(0) =~= s);
    assert(without_bom(s) == s);
    assert(xml_body(s) == trim_start(s));
}

/// Parses an RSS 2.0 or Atom document.
pub fn parse_feed(xml: &str) -> (r: Result<Feed, AppError>)
    ensures
        match feed_of(xml@) {
            Ok(f) => r matches Ok(g) && g@ == f,
            Err(m) => r matches Err(AppError::RssParse(e)) && e@ == m,
        },
{
    let v = chars_of(xml);
    let n = v.len();
    let k1 = char_run_end_exec(v.as_slice(), '\u{feff}');
    let w = &v[k1..n];
    assert(w@ =~= trim_start_char(xml@, '\u{feff}'));
    let k2 = char_run_end_exec(w, '\u{fffe}');
    let no_bom = xml.substring_char(k1 + k2, n);
    assert(no_bom@ =~= without_bom(xml@));
    let cleaned = strip_xml_header(no_bom);
    let cv = chars_of(cleaned);
    let trimmed = trim_exec(cv.as_slice());
    let tv = chars_of(trimmed.as_str());
    let rss = chars_of("<rss");
    let atom = chars_of("<feed");
    if starts_with_exec(tv.as_slice(), rss.as_slice()) {
        parse_rss2(cleaned)
    } else if starts_with_exec(tv.as_slice(), atom.as_slice()) {
        parse_atom(cleaned)
    } else {
        let mut m = String::from_str("Unknown feed format (preview): ");
        let preview = take_chars_exec(tv.as_slice(), 200);
        m.append(preview.as_str());
        Err(AppError::RssParse(m))
    }
}

} // verus!
