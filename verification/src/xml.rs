//! XML events from `quick-xml`, as plain values.
//!
//! A document is read with `quick_xml::Reader` (text trimmed) into the
//! sequence of its events up to the end of the document or the first error:
//! each event is its kind and a string (the qualified name of a tag, the
//! unescaped text of a text node). The attributes of each tag come in a
//! second sequence, aligned with the first.

use vstd::prelude::*;
use quick_xml::Reader;
use quick_xml::events::Event;
use quick_xml::events::Event::{Empty, End, Eof, Start, Text};
use self::XmlEvent::{EmptyTag, EndTag, OtherEvent, StartTag, TextNode};
use crate::text::{chars_eq, chars_of, find_char, first_index_of, lemma_first_index_of, string_of, sub_chars};

verus! {

/// The kinds of XML events that the readers tell apart.
#[derive(Clone, Copy, Debug, PartialEq, Eq, Structural)]
pub enum XmlKind {
    /// `<tag ...>`
    Start,
    /// `<tag ... />`
    Empty,
    /// `</tag>`
    End,
    /// Text between tags
    Text,
    /// Comments, CDATA, declarations, processing instructions, doctypes
    Other,
}

/// An XML event with what the readers take from it: the qualified name of a
/// start, empty or end tag, the unescaped text of a text node.
pub enum XmlEvent {
    StartTag(String),
    EmptyTag(String),
    EndTag(String),
    TextNode(String),
    /// Comments, CDATA, declarations, processing instructions, doctypes
    OtherEvent,
}

/// The kind and string of an event.
pub open spec fn event_pair(e: XmlEvent) -> (XmlKind, Seq<char>) {
    match e {
        XmlEvent::StartTag(n) => (XmlKind::Start, n@),
        XmlEvent::EmptyTag(n) => (XmlKind::Empty, n@),
        XmlEvent::EndTag(n) => (XmlKind::End, n@),
        XmlEvent::TextNode(t) => (XmlKind::Text, t@),
        XmlEvent::OtherEvent => (XmlKind::Other, Seq::empty()),
    }
}

/// The kinds and strings of a sequence of events.
pub open spec fn event_pairs(v: Seq<XmlEvent>) -> Seq<(XmlKind, Seq<char>)> {
    v.map_values(|e: XmlEvent| event_pair(e))
}

/// A document as `quick_xml::Reader` (with `trim_text(true)`) reads it, up to
/// the end or the first error: the events (for a start, empty or end tag its
/// qualified name, for text its unescaped text, empty where unescaping fails,
/// nothing for other events); the (qualified key, raw value) attributes of
/// each event, in order (none for events other than start and empty tags,
/// malformed attributes left out); and the error's message, where reading
/// stopped at an error.
pub uninterp spec fn xml_read(content: Seq<char>) -> (
    Seq<(XmlKind, Seq<char>)>,
    Seq<Seq<(Seq<char>, Seq<char>)>>,
    Option<Seq<char>>,
);

/// The views of (String, String) pairs.
pub open spec fn string_pairs(v: Seq<(String, String)>) -> Seq<(Seq<char>, Seq<char>)> {
    v.map_values(|p: (String, String)| (p.0@, p.1@))
}

/// The views of read events.
pub open spec fn event_views(v: Seq<(XmlKind, String)>) -> Seq<(XmlKind, Seq<char>)> {
    v.map_values(|e: (XmlKind, String)| (e.0, e.1@))
}

/// The views of attribute lists.
pub open spec fn attribute_views(v: Seq<Vec<(String, String)>>) -> Seq<Seq<(Seq<char>, Seq<char>)>> {
    v.map_values(|a: Vec<(String, String)>| string_pairs(a@))
}

/// `quick_xml::Reader::read_event` over the document, with text trimmed
/// (`Config::trim_text`): the events, and the error's message where reading
/// stopped at one; named by `xml_read`.
#[verifier::external_body]
fn quick_xml_events(content: &str) -> (r: (Vec<XmlEvent>, Option<String>))
    ensures
        event_pairs(r.0@) == xml_read(content@).0,
        crate::checks::model::opt_view(r.1) == xml_read(content@).2,
{
    let mut rd = Reader::from_str(content);
    rd.config_mut().trim_text(true);
    let mut out = vec![];
    loop {
        out.push(match rd.read_event() {
            Ok(Start(e)) => StartTag(String::from_utf8_lossy(e.name().0).into()),
            Ok(Empty(e)) => EmptyTag(String::from_utf8_lossy(e.name().0).into()),
            Ok(End(e)) => EndTag(String::from_utf8_lossy(e.name().0).into()),
            Ok(Text(e)) => TextNode(e.unescape().unwrap_or_default().into()),
            Ok(Eof) => return (out, None),
            Err(e) => return (out, Some(e.to_string())),
            Ok(_) => OtherEvent,
        });
    }
}

/// The events of a document, as kinds and strings, and the error where
/// reading stopped at one.
pub(crate) fn read_xml_events(content: &str) -> (r: (Vec<(XmlKind, String)>, Option<String>))
    ensures
        event_views(r.0@) == xml_read(content@).0,
        crate::checks::model::opt_view(r.1) == xml_read(content@).2,
{
    let (events, error) = quick_xml_events(content);
    let mut out: Vec<(XmlKind, String)> = Vec::new();
    let mut i: usize = 0;
    while i < events.len()
        invariant
            i <= events@.len(),
            event_views(out@) == event_pairs(events@).take(i as int),
        decreases events.len() - i,
    {
        let pair = match &events[i] {
            XmlEvent::StartTag(n) => (XmlKind::Start, n.clone()),
            XmlEvent::EmptyTag(n) => (XmlKind::Empty, n.clone()),
            XmlEvent::EndTag(n) => (XmlKind::End, n.clone()),
            XmlEvent::TextNode(t) => (XmlKind::Text, t.clone()),
            XmlEvent::OtherEvent => (XmlKind::Other, String::new()),
        };
        assert((pair.0, pair.1@) == event_pair(events@[i as int]));
        let ghost before = event_views(out@);
        out.push(pair);
        assert(event_views(out@) =~= before.push(event_pair(events@[i as int])));
        i += 1;
        assert(event_views(out@) =~= event_pairs(events@).take(i as int));
    }
    assert(event_pairs(events@).take(i as int) =~= event_pairs(events@));
    (out, error)
}

/// `quick_xml::events::BytesStart::attributes` of each event of the same
/// reading as `quick_xml_events`, one list per event: the second part of
/// `xml_read`.
#[verifier::external_body]
pub(crate) fn read_xml_attributes(content: &str) -> (r: Vec<Vec<(String, String)>>)
    ensures
        attribute_views(r@) == xml_read(content@).1,
        r@.len() == xml_read(content@).0.len(),
{
    let mut rd = quick_xml::Reader::from_str(content);
    rd.config_mut().trim_text(true);
    let mut out = Vec::new();
    loop {
        out.push(match rd.read_event() {
            Ok(Event::Start(e)) | Ok(Event::Empty(e)) => e.attributes().flatten().map(
                |a| (String::from_utf8_lossy(a.key.0).into(), String::from_utf8_lossy(&a.value).into()),
            ).collect(),
            Ok(Event::Eof) | Err(_) => return out,
            Ok(_) => Vec::new(),
        });
    }
}

/// The local part of a qualified name: after the first `:` (`QName::local_name`).
pub open spec fn qname_local(q: Seq<char>) -> Seq<char> {
    match first_index_of(q, ':') {
        Some(i) => q.skip(i + 1),
        None => q,
    }
}

/// The prefix of a qualified name: before the first `:`, empty where there is
/// none (`QName::prefix`, absent taken as empty).
pub open spec fn qname_prefix(q: Seq<char>) -> Seq<char> {
    match first_index_of(q, ':') {
        Some(i) => q.take(i),
        None => Seq::empty(),
    }
}

/// The local part and the prefix of a qualified name.
pub fn split_qname(q: &str) -> (r: (String, String))
    ensures
        r.0@ == qname_local(q@),
        r.1@ == qname_prefix(q@),
{
    let v = chars_of(q);
    proof {
        lemma_first_index_of(q@, ':');
    }
    match find_char(v.as_slice(), ':') {
        Some(i) => {
            let local = sub_chars(v.as_slice(), i + 1, v.len());
            let prefix = sub_chars(v.as_slice(), 0, i);
            assert(local@ =~= q@.skip(i + 1));
            assert(prefix@ =~= q@.take(i as int));
            (string_of(local.as_slice()), string_of(prefix.as_slice()))
        },
        None => {
            let e: Vec<char> = Vec::new();
            assert(e@ =~= Seq::<char>::empty());
            (string_of(v.as_slice()), string_of(e.as_slice()))
        },
    }
}

/// The value of the last attribute with this key (the map that keeps the last
/// of repeated keys).
pub open spec fn attr_lookup(attrs: Seq<(Seq<char>, Seq<char>)>, key: Seq<char>) -> Option<Seq<char>>
    decreases attrs.len(),
{
    if attrs.len() == 0 {
        None
    } else if attrs.last().0 == key {
        Some(attrs.last().1)
    } else {
        attr_lookup(attrs.drop_last(), key)
    }
}

/// The value of the last attribute with this key.
pub fn attr_get(attrs: &Vec<(String, String)>, key: &str) -> (r: Option<String>)
    ensures
        crate::checks::model::opt_view(r) == attr_lookup(string_pairs(attrs@), key@),
{
    let ghost av = string_pairs(attrs@);
    let k = chars_of(key);
    let mut j = attrs.len();
    assert(av.take(j as int) =~= av);
    while j > 0
        invariant
            j <= attrs@.len(),
            k@ == key@,
            av == string_pairs(attrs@),
            attr_lookup(av, key@) == attr_lookup(av.take(j as int), key@),
        decreases j,
    {
        assert(av.take(j as int).drop_last() =~= av.take(j - 1));
        assert(av.take(j as int).last() == (attrs@[j - 1].0@, attrs@[j - 1].1@));
        let a = chars_of(attrs[j - 1].0.as_str());
        if chars_eq(a.as_slice(), k.as_slice()) {
            return Some(attrs[j - 1].1.clone());
        }
        j -= 1;
    }
    None
}

} // verus!
