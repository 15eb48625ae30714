//! The XML event stream of a feed document, read through `quick_xml`.
//!
//! A reader is treated as the list of events it has yet to report: each
//! read hands out the first one. The list is the one `quick_xml` produces
//! for the document with text trimming on, up to and including the first
//! end of input or error.
use vstd::prelude::*;
use quick_xml::events::Event;

verus! {

/// An XML event as the feed parsers see it.
pub enum XmlEvent {
    /// `<tag ...>` or `<tag ... />`: the raw qualified name and the raw
    /// `href` attribute value.
    Open { name: Vec<u8>, href: Option<Vec<u8>> },
    /// Character data, unescaped; `None` when unescaping failed.
    Text { text: Option<String> },
    /// `</tag>`: the raw qualified name.
    End { name: Vec<u8> },
    /// End of input.
    Eof,
    /// The document is malformed at this point.
    Error,
    /// Any other event (comments, CDATA, declarations, ...).
    Other,
}

/// The mathematical content of an [`XmlEvent`].
pub enum XmlEventView {
    Open { name: Seq<u8>, href: Option<Seq<u8>> },
    Text { text: Option<Seq<char>> },
    End { name: Seq<u8> },
    Eof,
    Error,
    Other,
}

impl XmlEventView {
    /// The event ends the stream.
    pub open spec fn is_final(self) -> bool {
        self is Eof || self is Error
    }
}

/// View of an optional byte vector.
pub open spec fn opt_bytes(o: Option<Vec<u8>>) -> Option<Seq<u8>> {
    match o {
        Some(v) => Some(v@),
        None => None,
    }
}

/// View of an optional string.
pub open spec fn opt_str(o: Option<String>) -> Option<Seq<char>> {
    match o {
        Some(s) => Some(s@),
        None => None,
    }
}

impl View for XmlEvent {
    type V = XmlEventView;

    open spec fn view(&self) -> XmlEventView {
        match self {
            XmlEvent::Open { name, href } => XmlEventView::Open { name: name@, href: opt_bytes(*href) },
            XmlEvent::Text { text } => XmlEventView::Text { text: opt_str(*text) },
            XmlEvent::End { name } => XmlEventView::End { name: name@ },
            XmlEvent::Eof => XmlEventView::Eof,
            XmlEvent::Error => XmlEventView::Error,
            XmlEvent::Other => XmlEventView::Other,
        }
    }
}

#[verifier::external_type_specification]
#[verifier::external_body]
#[verifier::reject_recursive_types(R)]
pub struct ExXmlReader<R>(quick_xml::Reader<R>);

/// The events `quick_xml` reports for `xml` with text trimming on, up to
/// and including the first end of input or error.
pub uninterp spec fn xml_event_stream(xml: Seq<char>) -> Seq<XmlEventView>;

/// The events a reader has yet to report.
pub uninterp spec fn xml_pending(r: quick_xml::Reader<&[u8]>) -> Seq<XmlEventView>;

/// `String::from_utf8_lossy` on the given bytes.
pub uninterp spec fn utf8_lossy(bytes: Seq<u8>) -> Seq<char>;

/// `str::to_lowercase` on the given text.
pub uninterp spec fn lowercase(s: Seq<char>) -> Seq<char>;

/// A `quick_xml::Reader` over `xml` (`Reader::from_str`) with
/// `trim_text(true)` set, as the feed parsers configure it. Its pending
/// events are the event stream of `xml`; that stream is finite and ends with
/// its first end-of-input or error event.
#[verifier::external_body]
pub(crate) fn xml_reader_for(xml: &str) -> (r: quick_xml::Reader<&[u8]>)
    ensures
        xml_pending(r) == xml_event_stream(xml@),
        xml_pending(r).len() > 0,
        xml_pending(r).last().is_final(),
        forall|i: int| 0 <= i < xml_pending(r).len() - 1 ==> !(#[trigger] xml_pending(r)[i]).is_final(),
{
    let mut r = quick_xml::Reader::from_str(xml);
    r.config_mut().trim_text(true);
    r
}

/// `Reader::read_event_into`: hands out the next pending event, converted
/// arm by arm (`BytesStart::name`, `BytesStart::try_get_attribute("href")`,
/// `BytesText::unescape`). When events are pending, the result is the first
/// of them and the rest stay pending; nothing is stated once none are left.
#[verifier::external_body]
pub(crate) fn xml_next_event(r: &mut quick_xml::Reader<&[u8]>) -> (e: XmlEvent)
    ensures
        xml_pending(*old(r)).len() > 0 ==> e@ == xml_pending(*old(r))[0],
        xml_pending(*old(r)).len() > 0 ==> xml_pending(*final(r)) == xml_pending(*old(r)).drop_first(),
{
    let mut buf = Vec::new();
    match r.read_event_into(&mut buf) {
        Ok(Event::Start(e)) | Ok(Event::Empty(e)) => XmlEvent::Open {
            name: e.name().as_ref().to_vec(),
            href: e.try_get_attribute("href").ok().flatten().map(|a| a.value.to_vec()),
        },
        Ok(Event::Text(e)) => XmlEvent::Text { text: e.unescape().ok().map(|t| t.into_owned()) },
        Ok(Event::End(e)) => XmlEvent::End { name: e.name().as_ref().to_vec() },
        Ok(Event::Eof) => XmlEvent::Eof,
        Err(_) => XmlEvent::Error,
        Ok(_) => XmlEvent::Other,
    }
}

/// `String::from_utf8_lossy(bytes).to_string()`.
#[verifier::external_body]
pub(crate) fn lossy_string(bytes: &[u8]) -> (s: String)
    ensures
        s@ == utf8_lossy(bytes@),
{
    String::from_utf8_lossy(bytes).to_string()
}

/// `str::to_lowercase`.
#[verifier::external_body]
pub(crate) fn to_lowercase(s: &str) -> (r: String)
    ensures
        r@ == lowercase(s@),
{
    s.to_lowercase()
}

/// The element name as the parsers compare it: lossy UTF-8, lower-cased.
pub open spec fn tag_name(raw: Seq<u8>) -> Seq<char> {
    lowercase(utf8_lossy(raw))
}

/// Exec [`tag_name`].
pub fn tag_name_exec(raw: &Vec<u8>) -> (s: String)
    ensures
        s@ == tag_name(raw@),
{
    let l = lossy_string(raw.as_slice());
    to_lowercase(l.as_str())
}

} // verus!
