//! The boundary to `quick-xml`: a pull reader over a statement document, the
//! attribute iterator of an element, and attribute-value normalisation.
//!
//! `quick-xml` itself is outside the proofs. What its reader reports is named by
//! the spec functions below ([`xml_tokens`], [`attribute_items`],
//! [`normalized_attribute_value`]); the trusted wrappers tie each call's
//! result to those names, and every scanner built on top of them is proved
//! against the names.

use vstd::prelude::*;

use quick_xml::events::attributes::{Attribute, Attributes};
use quick_xml::events::{BytesStart, Event};
use quick_xml::reader::Reader;
use quick_xml::XmlVersion;

verus! {

#[verifier::external_type_specification]
#[verifier::external_body]
#[verifier::reject_recursive_types(R)]
pub struct ExReader<R>(quick_xml::reader::Reader<R>);

#[verifier::external_type_specification]
#[verifier::external_body]
pub struct ExBytesStart<'i>(quick_xml::events::BytesStart<'i>);

#[verifier::external_type_specification]
#[verifier::external_body]
pub struct ExAttributes<'a>(quick_xml::events::attributes::Attributes<'a>);

#[verifier::external_type_specification]
#[verifier::external_body]
pub struct ExAttribute<'a>(quick_xml::events::attributes::Attribute<'a>);

/// The error type of `Attributes`' `Iterator` impl, whose items are
/// `Result<Attribute, AttrError>`; the declaration lets that impl be read.
/// [`next_attribute`] turns such an error into its text.
#[verifier::external_type_specification]
#[verifier::external_body]
pub struct ExAttrError(quick_xml::events::attributes::AttrError);

/// One event of the pull reader, as far as the scanners read it.
pub enum XmlToken {
    /// A start tag or an empty-element tag: its name, and the text after the
    /// name up to the closing `>` (or `/>`), where the attributes stand.
    Element { name: Seq<char>, rest: Seq<char> },
    /// The end of the document.
    Eof,
    /// The reader failed; the message is the error's display text.
    Failure { message: Seq<char> },
    /// Any other event (end tags, text, comments, declarations, ...).
    Other,
}

/// One item of an element's attribute iterator.
pub enum AttrItem {
    /// A well-formed `key="raw value"` pair; the value is not yet normalised.
    Pair { key: Seq<char>, raw: Seq<char> },
    /// A malformed or duplicated attribute; the message is the error's display text.
    Malformed { message: Seq<char> },
}

pub open spec fn is_final(t: XmlToken) -> bool {
    t is Eof || t is Failure
}

/// A token sequence that ends with the end of the document or a failure,
/// and holds neither before its last token.
pub open spec fn well_ended(s: Seq<XmlToken>) -> bool {
    &&& s.len() > 0
    &&& is_final(s.last())
    &&& forall|i: int| 0 <= i < s.len() - 1 ==> !is_final(#[trigger] s[i])
}

/// The events that a `quick_xml::reader::Reader` created by `Reader::from_str(xml)`
/// reports, one `read_event` call after another, up to and including the first
/// end of document or error.
pub uninterp spec fn xml_tokens(xml: Seq<char>) -> Seq<XmlToken>;

/// The items that `BytesStart::attributes` yields, one `next` call after another
/// until it yields `None`, for an element whose name is `name` and whose text
/// after the name is `rest`.
pub uninterp spec fn attribute_items(name: Seq<char>, rest: Seq<char>) -> Seq<AttrItem>;

/// The outcome of `Attribute::normalized_value(XmlVersion::Implicit1_0)` on an
/// attribute whose raw value is `raw`: the unescaped, whitespace-normalised value,
/// or the display text of the error.
pub uninterp spec fn normalized_attribute_value(raw: Seq<char>) -> Result<Seq<char>, Seq<char>>;

/// A pull reader over one document, with the events that it has still to report.
pub struct XmlScanner<'a> {
    reader: Reader<&'a [u8]>,
    pending: Ghost<Seq<XmlToken>>,
}

impl<'a> XmlScanner<'a> {
    /// The events that the reader has still to report.
    pub closed spec fn pending(&self) -> Seq<XmlToken> {
        self.pending@
    }
}

/// A start or empty-element tag that the reader reported.
pub struct Tag<'a> {
    start: BytesStart<'a>,
    name: Ghost<Seq<char>>,
    rest: Ghost<Seq<char>>,
}

impl<'a> Tag<'a> {
    pub closed spec fn name(&self) -> Seq<char> {
        self.name@
    }

    pub closed spec fn rest(&self) -> Seq<char> {
        self.rest@
    }
}

/// One event of the reader, as the scanners read it.
pub enum Token<'a> {
    Element(Tag<'a>),
    Eof,
    Failure(String),
    Other,
}

pub open spec fn token_view(t: &Token) -> XmlToken {
    match t {
        Token::Element(tag) => XmlToken::Element { name: tag.name(), rest: tag.rest() },
        Token::Eof => XmlToken::Eof,
        Token::Failure(m) => XmlToken::Failure { message: m@ },
        Token::Other => XmlToken::Other,
    }
}

/// The attribute iterator of one tag, with the items that it has still to yield.
pub struct AttrScanner<'b> {
    iter: Attributes<'b>,
    pending: Ghost<Seq<AttrItem>>,
}

impl<'b> AttrScanner<'b> {
    pub closed spec fn pending(&self) -> Seq<AttrItem> {
        self.pending@
    }
}

/// A well-formed attribute of a tag.
pub struct Attr<'b> {
    raw: Attribute<'b>,
    key: Ghost<Seq<char>>,
    value: Ghost<Seq<char>>,
}

impl<'b> Attr<'b> {
    pub closed spec fn key(&self) -> Seq<char> {
        self.key@
    }

    pub closed spec fn raw_value(&self) -> Seq<char> {
        self.value@
    }
}

/// One item of an attribute iterator.
pub enum AttrToken<'b> {
    Pair(Attr<'b>),
    Malformed(String),
}

pub open spec fn attr_token_view(t: &AttrToken) -> AttrItem {
    match t {
        AttrToken::Pair(a) => AttrItem::Pair { key: a.key(), raw: a.raw_value() },
        AttrToken::Malformed(m) => AttrItem::Malformed { message: m@ },
    }
}

/// `quick_xml::reader::Reader::from_str`: a reader over `xml` with its default
/// configuration. Claimed: it will report the events named by [`xml_tokens`],
/// and these end with the end of the document or an error (a reader over a
/// finite text reaches one of the two).
#[verifier::external_body]
pub(crate) fn open_scanner<'a>(xml: &'a str) -> (s: XmlScanner<'a>)
    ensures
        s.pending() == xml_tokens(xml@),
        well_ended(s.pending()),
{
    XmlScanner { reader: Reader::from_str(xml), pending: Ghost(xml_tokens(xml@)) }
}

/// `quick_xml::reader::Reader::read_event`: claimed to report the next event that
/// [`xml_tokens`] names, start and empty-element tags as [`Token::Element`], an
/// error by its display text.
#[verifier::external_body]
pub(crate) fn next_token<'a>(s: &mut XmlScanner<'a>) -> (t: Token<'a>)
    requires
        old(s).pending().len() > 0,
    ensures
        token_view(&t) == old(s).pending()[0],
        final(s).pending() == old(s).pending().drop_first(),
{
    match s.reader.read_event() {
        Ok(Event::Start(e)) => Token::Element(Tag { start: e, name: Ghost(arbitrary()), rest: Ghost(arbitrary()) }),
        Ok(Event::Empty(e)) => Token::Element(Tag { start: e, name: Ghost(arbitrary()), rest: Ghost(arbitrary()) }),
        Ok(Event::Eof) => Token::Eof,
        Ok(_) => Token::Other,
        Err(e) => Token::Failure(format!("{e}")),
    }
}

/// `quick_xml::events::BytesStart::name`: the raw name of the tag, the text
/// between `<` and the end of the name.
#[verifier::external_body]
pub(crate) fn tag_name<'b, 'a>(tag: &'b Tag<'a>) -> (n: &'b str)
    ensures
        n@ == tag.name(),
{
    tag.start.name().0
}

/// `quick_xml::events::BytesStart::attributes`: claimed to yield the items that
/// [`attribute_items`] names for this tag.
#[verifier::external_body]
pub(crate) fn tag_attributes<'b, 'a>(tag: &'b Tag<'a>) -> (s: AttrScanner<'b>)
    ensures
        s.pending() == attribute_items(tag.name(), tag.rest()),
{
    AttrScanner { iter: tag.start.attributes(), pending: Ghost(arbitrary()) }
}

/// `Iterator::next` of `quick_xml::events::attributes::Attributes`: the next named
/// item, an error by its display text, and `None` once all items are out.
#[verifier::external_body]
pub(crate) fn next_attribute<'b>(s: &mut AttrScanner<'b>) -> (t: Option<AttrToken<'b>>)
    ensures
        old(s).pending().len() == 0 ==> t is None && final(s).pending() == old(s).pending(),
        old(s).pending().len() > 0 ==> t is Some && attr_token_view(&t->0) == old(s).pending()[0]
            && final(s).pending() == old(s).pending().drop_first(),
{
    match s.iter.next() {
        None => None,
        Some(Ok(a)) => Some(AttrToken::Pair(Attr { raw: a, key: Ghost(arbitrary()), value: Ghost(arbitrary()) })),
        Some(Err(e)) => Some(AttrToken::Malformed(format!("{e}"))),
    }
}

/// The `key` field of `quick_xml::events::attributes::Attribute`, as a string.
#[verifier::external_body]
pub(crate) fn attribute_key<'b>(a: &Attr<'b>) -> (k: String)
    ensures
        k@ == a.key(),
{
    a.raw.key.0.to_string()
}

/// `quick_xml::events::attributes::Attribute::normalized_value` for XML 1.0:
/// claimed to give what [`normalized_attribute_value`] names, an error by its
/// display text.
#[verifier::external_body]
pub(crate) fn attribute_value<'b>(a: &Attr<'b>) -> (v: Result<String, String>)
    ensures
        match normalized_attribute_value(a.raw_value()) {
            Ok(s) => v is Ok && v->Ok_0@ == s,
            Err(m) => v is Err && v->Err_0@ == m,
        },
{
    match a.raw.normalized_value(XmlVersion::Implicit1_0) {
        Ok(v) => Ok(v.into_owned()),
        Err(e) => Err(format!("{e}")),
    }
}

} // verus!
