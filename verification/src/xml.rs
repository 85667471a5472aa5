//! XML documents as a sequence of plain events, read with quick-xml.

use vstd::prelude::*;
use quick_xml::events::Event;
use crate::error::{ErrorView, HbciError, HbciErrorKind, HbciResult};

verus! {

/// An attribute of a tag: its name with its normalized value (or why the
/// value is not valid); or, where the attribute is malformed, why.
#[derive(Debug)]
pub enum XmlAttr {
    Attr { key: String, value: Result<String, String> },
    Malformed(String),
}

/// A start or empty tag with its attributes in document order.
#[derive(Debug)]
pub struct XmlTag {
    pub name: String,
    pub attrs: Vec<XmlAttr>,
    /// The attributes as read with the check for duplicates: a repeated
    /// attribute stands as malformed.
    pub checked_attrs: Vec<XmlAttr>,
}

/// One event of an XML document.
#[derive(Debug)]
pub enum XmlEvent {
    Start(XmlTag),
    Empty(XmlTag),
    /// Character data, as it stands in the document.
    Text(String),
    /// An entity or character reference, by its name.
    GeneralRef(String),
    End(String),
    Eof,
    /// Declarations, comments, processing instructions, CDATA.
    Other,
    /// The document is not well-formed here.
    Error(String),
}

#[verifier::external_type_specification]
#[verifier::external_body]
#[verifier::reject_recursive_types(R)]
pub struct ExXmlReader<R>(quick_xml::Reader<R>);

#[verifier::external_type_specification]
#[verifier::external_body]
pub struct ExBytesStart<'a>(quick_xml::events::BytesStart<'a>);

/// The events that quick-xml reads from the document `xml` (text kept as
/// it is), one `Reader::read_event` after the other, up to and with the end
/// of the document or the first error. The reader is deterministic, so they
/// are a function of the text alone.
pub uninterp spec fn xml_events_of(xml: Seq<char>) -> Seq<XmlEvent>;

/// The events that a reader has still to give, up to and with the end of
/// the document or the first error.
pub uninterp spec fn reader_rest(reader: quick_xml::Reader<&[u8]>) -> Seq<XmlEvent>;

/// Whether an event ends the reading.
pub open spec fn is_final(e: XmlEvent) -> bool {
    e is Eof || e is Error
}

/// `quick_xml::Reader::from_str`, with text kept as it is (not trimmed):
/// the new reader has all events of the document still to give, the last
/// of them the end or the first error.
#[verifier::external_body]
fn xml_reader<'a>(xml: &'a str) -> (r: quick_xml::Reader<&'a [u8]>)
    ensures
        reader_rest(r) == xml_events_of(xml@),
        reader_rest(r).len() >= 1,
        is_final(reader_rest(r).last()),
        forall|i: int| 0 <= i < reader_rest(r).len() - 1 ==> !is_final(#[trigger] reader_rest(r)[i]),
{
    let mut reader = quick_xml::Reader::from_str(xml);
    reader.config_mut().trim_text(false);
    reader
}

/// The name and attributes of a tag (`BytesStart::name`; `attributes`,
/// once without and once with the check for duplicate attributes;
/// `Attribute::normalized_value` for XML 1.0). Only `next_event` calls it,
/// to convert the tags it reads.
#[verifier::external_body]
fn tag_of(e: &quick_xml::events::BytesStart) -> XmlTag {
    let conv = |a: Result<quick_xml::events::attributes::Attribute, quick_xml::events::attributes::AttrError>| match a {
        Ok(a) => XmlAttr::Attr {
            key: a.key.as_ref().to_owned(),
            value: a.normalized_value(quick_xml::XmlVersion::Explicit1_0).map(|v| v.into_owned()).map_err(|e| e.to_string()),
        },
        Err(e) => XmlAttr::Malformed(e.to_string()),
    };
    XmlTag {
        name: e.name().as_ref().to_owned(),
        attrs: e.attributes().with_checks(false).map(conv).collect(),
        checked_attrs: e.attributes().map(conv).collect(),
    }
}

/// `Reader::read_event`: the next of the events the reader has still to
/// give, which it then no longer has.
#[verifier::external_body]
fn next_event(reader: &mut quick_xml::Reader<&[u8]>) -> (r: XmlEvent)
    requires
        reader_rest(*old(reader)).len() > 0,
    ensures
        r == reader_rest(*old(reader))[0],
        reader_rest(*final(reader)) == reader_rest(*old(reader)).drop_first(),
{
    match reader.read_event() {
        Ok(Event::Start(e)) => XmlEvent::Start(tag_of(&e)),
        Ok(Event::Empty(e)) => XmlEvent::Empty(tag_of(&e)),
        Ok(Event::Text(t)) => XmlEvent::Text((*t).to_owned()),
        Ok(Event::GeneralRef(r)) => XmlEvent::GeneralRef((*r).to_owned()),
        Ok(Event::End(e)) => XmlEvent::End(e.name().as_ref().to_owned()),
        Ok(Event::Eof) => XmlEvent::Eof,
        Ok(_) => XmlEvent::Other,
        Err(e) => XmlEvent::Error(e.to_string()),
    }
}

/// The events of a document, up to its end or the first error, which come
/// last.
pub fn xml_events(xml: &str) -> (r: Vec<XmlEvent>)
    ensures
        r@ == xml_events_of(xml@),
        r@.len() >= 1,
        is_final(r@.last()),
        forall|i: int| 0 <= i < r@.len() - 1 ==> !is_final(#[trigger] r@[i]),
{
    let mut reader = xml_reader(xml);
    let ghost all = reader_rest(reader);
    let mut events: Vec<XmlEvent> = Vec::new();
    loop
        invariant
            all == xml_events_of(xml@),
            all.len() >= 1,
            is_final(all.last()),
            forall|i: int| 0 <= i < all.len() - 1 ==> !is_final(#[trigger] all[i]),
            events@ + reader_rest(reader) == all,
            reader_rest(reader).len() > 0,
        decreases reader_rest(reader).len(),
    {
        let ghost before = reader_rest(reader);
        let e = next_event(&mut reader);
        let done = match &e {
            XmlEvent::Eof => true,
            XmlEvent::Error(_) => true,
            _ => false,
        };
        let ghost k = events@.len();
        events.push(e);
        proof {
            assert(all[k as int] == before[0]);
            assert(events@ + reader_rest(reader) =~= all);
        }
        if done {
            assert(k == all.len() - 1);
            assert(events@ =~= all);
            return events;
        }
    }
}

/// What looking up an attribute gives.
pub ghost enum AttrLookup {
    Missing,
    Found(Seq<char>),
    /// The value is not valid: why.
    BadValue(Seq<char>),
    /// An attribute before it is malformed: why.
    Malformed(Seq<char>),
}

/// Looks up attribute `name` among `attrs` in order; a malformed attribute
/// before it stops the search.
pub open spec fn attr_lookup(attrs: Seq<XmlAttr>, name: Seq<char>) -> AttrLookup
    decreases attrs.len(),
{
    if attrs.len() == 0 {
        AttrLookup::Missing
    } else {
        match attrs[0] {
            XmlAttr::Malformed(e) => AttrLookup::Malformed(e@),
            XmlAttr::Attr { key, value } => if key@ == name {
                match value {
                    Ok(v) => AttrLookup::Found(v@),
                    Err(e) => AttrLookup::BadValue(e@),
                }
            } else {
                attr_lookup(attrs.drop_first(), name)
            },
        }
    }
}

/// An attribute's value as the parsers take it: `parse_msg` and
/// `decode_msg` are the messages of the protocol errors for a malformed
/// attribute and an invalid value.
pub open spec fn attr_value(
    attrs: Seq<XmlAttr>,
    name: Seq<char>,
    parse_msg: Seq<char>,
    decode_msg: Seq<char>,
) -> Result<Option<Seq<char>>, ErrorView> {
    match attr_lookup(attrs, name) {
        AttrLookup::Missing => Ok(None),
        AttrLookup::Found(v) => Ok(Some(v)),
        AttrLookup::BadValue(e) => Err(ErrorView { kind: HbciErrorKind::Protocol, message: decode_msg, source: Some(e) }),
        AttrLookup::Malformed(e) => Err(ErrorView { kind: HbciErrorKind::Protocol, message: parse_msg, source: Some(e) }),
    }
}

/// The value of attribute `name` among `attrs`.
pub fn attrs_lookup(attrs: &[XmlAttr], name: &str, parse_msg: &str, decode_msg: &str) -> (r: HbciResult<Option<String>>)
    ensures
        match attr_value(attrs@, name@, parse_msg@, decode_msg@) {
            Ok(v) => r matches Ok(x) && crate::tools::opt_view(x) == v,
            Err(e) => r matches Err(x) && x@ == e,
        },
{
    let mut i: usize = 0;
    assert(attrs@.skip(0) =~= attrs@);
    while i < attrs.len()
        invariant
            i <= attrs@.len(),
            attr_lookup(attrs@, name@) == attr_lookup(attrs@.skip(i as int), name@),
        decreases attrs.len() - i,
    {
        assert(attrs@.skip(i as int)[0] == attrs@[i as int]);
        assert(attrs@.skip(i as int).drop_first() =~= attrs@.skip(i + 1));
        match &attrs[i] {
            XmlAttr::Malformed(e) => {
                return Err(HbciError::with_source(HbciErrorKind::Protocol, parse_msg, e.as_str()));
            },
            XmlAttr::Attr { key, value } => {
                if crate::text::str_eq(key.as_str(), name) {
                    return match value {
                        Ok(v) => Ok(Some(v.clone())),
                        Err(e) => Err(HbciError::with_source(HbciErrorKind::Protocol, decode_msg, e.as_str())),
                    };
                }
            },
        }
        i += 1;
    }
    Ok(None)
}

/// The value of attribute `name` of a tag.
pub fn tag_attr(tag: &XmlTag, name: &str, parse_msg: &str, decode_msg: &str) -> (r: HbciResult<Option<String>>)
    ensures
        match attr_value(tag.attrs@, name@, parse_msg@, decode_msg@) {
            Ok(v) => r matches Ok(x) && crate::tools::opt_view(x) == v,
            Err(e) => r matches Err(x) && x@ == e,
        },
{
    attrs_lookup(tag.attrs.as_slice(), name, parse_msg, decode_msg)
}

/// The value of attribute `name` of a tag, read with the check for
/// duplicate attributes.
pub fn checked_tag_attr(tag: &XmlTag, name: &str, parse_msg: &str, decode_msg: &str) -> (r: HbciResult<Option<String>>)
    ensures
        match attr_value(tag.checked_attrs@, name@, parse_msg@, decode_msg@) {
            Ok(v) => r matches Ok(x) && crate::tools::opt_view(x) == v,
            Err(e) => r matches Err(x) && x@ == e,
        },
{
    attrs_lookup(tag.checked_attrs.as_slice(), name, parse_msg, decode_msg)
}

/// The error for a reading error `e` of the document, with message `m`.
pub open spec fn read_error(m: Seq<char>, e: Seq<char>) -> ErrorView {
    ErrorView { kind: HbciErrorKind::Protocol, message: m, source: Some(e) }
}

} // verus!
