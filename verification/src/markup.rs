//! The XML writer of the `xml` crate, with what each write adds to the
//! output stated as a contract.
//!
//! The writer is used as it is configured by default: no indentation, text
//! escaped, the names of open elements remembered, and an element without
//! content written in its short form. Every writer in this crate is made by
//! `new_writer` and written to through the functions of this module alone;
//! the contracts speak of such writers. Their sink is a byte vector, to
//! which a write never fails, so the writer reports an error only for an
//! event that is out of place: a second declaration, or the end of an
//! element where none is open. The `requires` of each function leaves those
//! out, and its contract then promises success.

use vstd::prelude::*;
use vstd::utf8::*;
use xml::writer::EventWriter;

verus! {

/// The event writer of the `xml` crate.
#[verifier::external_type_specification]
#[verifier::external_body]
#[verifier::reject_recursive_types(W)]
pub struct ExEventWriter<W>(xml::writer::EventWriter<W>);

/// The error of the event writer.
#[verifier::external_type_specification]
#[verifier::external_body]
pub struct ExWriterError(xml::writer::Error);

/// The text that the writer has put into its sink so far.
pub uninterp spec fn written(w: EventWriter<Vec<u8>>) -> Seq<char>;

/// The names of the elements that were started and not yet ended, the
/// innermost last.
pub uninterp spec fn open_elements(w: EventWriter<Vec<u8>>) -> Seq<Seq<char>>;

/// Whether the last write started an element whose start tag still lacks
/// its closing `>`.
pub uninterp spec fn tag_pending(w: EventWriter<Vec<u8>>) -> bool;

/// Whether the XML declaration has been written.
pub uninterp spec fn declared(w: EventWriter<Vec<u8>>) -> bool;

/// What a write that adds content puts out first: the `>` of a start tag
/// that is still pending.
pub open spec fn tag_close(w: EventWriter<Vec<u8>>) -> Seq<char> {
    if tag_pending(w) {
        seq!['>']
    } else {
        Seq::empty()
    }
}

/// The XML declaration for version 1.0 and the given encoding.
pub open spec fn declaration(encoding: Seq<char>) -> Seq<char> {
    seq!['<', '?', 'x', 'm', 'l', ' ', 'v', 'e', 'r', 's', 'i', 'o', 'n', '=', '"', '1', '.', '0', '"', ' ', 'e', 'n', 'c', 'o', 'd', 'i', 'n', 'g', '=', '"']
        + encoding + seq!['"', '?', '>']
}

/// The declaration of a default namespace, as an attribute.
pub open spec fn namespace_attribute(uri: Seq<char>) -> Seq<char> {
    seq![' ', 'x', 'm', 'l', 'n', 's', '=', '"'] + uri + seq!['"']
}

/// The end tag of an element.
pub open spec fn end_tag(name: Seq<char>) -> Seq<char> {
    seq!['<', '/'] + name + seq!['>']
}

/// The short ending of an element without content.
pub open spec fn empty_element_end() -> Seq<char> {
    seq![' ', '/', '>']
}

/// Whether a character stands for itself in an attribute value.
pub open spec fn plain_in_attribute(c: char) -> bool {
    c != '<' && c != '>' && c != '"' && c != '\'' && c != '&' && c != '\n' && c != '\r'
}

/// What is written for one character of text.
pub open spec fn escaped_char(c: char) -> Seq<char> {
    if c == '<' {
        seq!['&', 'l', 't', ';']
    } else if c == '>' {
        seq!['&', 'g', 't', ';']
    } else if c == '&' {
        seq!['&', 'a', 'm', 'p', ';']
    } else {
        seq![c]
    }
}

/// What is written for a text: each of `<`, `>` and `&` as its entity,
/// every other character as it is.
pub open spec fn escaped(text: Seq<char>) -> Seq<char>
    decreases text.len(),
{
    if text.len() == 0 {
        Seq::empty()
    } else {
        escaped(text.drop_last()) + escaped_char(text.last())
    }
}

/// Calls `EventWriter::new` on an empty byte vector of the given capacity.
/// Nothing is written yet, no element is open and the declaration is still
/// to come.
#[verifier::external_body]
pub(crate) fn new_writer(capacity: usize) -> (w: EventWriter<Vec<u8>>)
    ensures
        written(w) == Seq::<char>::empty(),
        open_elements(w) == Seq::<Seq<char>>::empty(),
        !tag_pending(w),
        !declared(w),
{
    EventWriter::new(Vec::with_capacity(capacity))
}

/// Calls `EventWriter::write` with a `StartDocument` event for XML 1.0,
/// the given encoding and no standalone flag. Where no declaration was
/// written before, the writer puts it out and reports success; a write into
/// a byte vector does not fail.
#[verifier::external_body]
pub(crate) fn write_declaration(w: &mut EventWriter<Vec<u8>>, encoding: &str) -> (r: Result<
    (),
    xml::writer::Error,
>)
    requires
        !declared(*old(w)),
    ensures
        r is Ok,
        written(*final(w)) == written(*old(w)) + declaration(encoding@),
        open_elements(*final(w)) == open_elements(*old(w)),
        tag_pending(*final(w)) == tag_pending(*old(w)),
        declared(*final(w)),
{
    w.write(
        xml::writer::XmlEvent::StartDocument {
            version: xml::common::XmlVersion::Version10,
            encoding: Some(encoding),
            standalone: None,
        },
    )
}

/// Calls `EventWriter::write` with a `StartElement` event that has no
/// attributes and no namespace. After the declaration, the writer closes a
/// pending start tag, writes `<` and the name, remembers the name and
/// leaves the new start tag pending.
#[verifier::external_body]
pub(crate) fn write_start(w: &mut EventWriter<Vec<u8>>, name: &str) -> (r: Result<
    (),
    xml::writer::Error,
>)
    requires
        declared(*old(w)),
    ensures
        r is Ok,
        written(*final(w)) == written(*old(w)) + tag_close(*old(w)) + seq!['<'] + name@,
        open_elements(*final(w)) == open_elements(*old(w)).push(name@),
        tag_pending(*final(w)),
        declared(*final(w)),
{
    w.write(xml::writer::XmlEvent::start_element(name))
}

/// Calls `EventWriter::write` with a `StartElement` event that declares a
/// default namespace. As the outermost element, with a namespace that is
/// not empty and holds no character that an attribute value escapes, it is
/// written like any start tag, followed by the `xmlns` attribute.
#[verifier::external_body]
pub(crate) fn write_root_start(w: &mut EventWriter<Vec<u8>>, name: &str, namespace: &str) -> (r:
    Result<(), xml::writer::Error>)
    requires
        declared(*old(w)),
        open_elements(*old(w)).len() == 0,
        namespace@.len() > 0,
        forall|i: int| 0 <= i < namespace@.len() ==> plain_in_attribute(#[trigger] namespace@[i]),
    ensures
        r is Ok,
        written(*final(w)) == written(*old(w)) + tag_close(*old(w)) + seq!['<'] + name@
            + namespace_attribute(namespace@),
        open_elements(*final(w)) == open_elements(*old(w)).push(name@),
        tag_pending(*final(w)),
        declared(*final(w)),
{
    w.write(xml::writer::XmlEvent::start_element(name).default_ns(namespace))
}

/// Calls `EventWriter::write` with a `Characters` event. After the
/// declaration, the writer closes a pending start tag and writes the text
/// with `<`, `>` and `&` replaced by their entities.
#[verifier::external_body]
pub(crate) fn write_text(w: &mut EventWriter<Vec<u8>>, text: &str) -> (r: Result<
    (),
    xml::writer::Error,
>)
    requires
        declared(*old(w)),
    ensures
        r is Ok,
        written(*final(w)) == written(*old(w)) + tag_close(*old(w)) + escaped(text@),
        open_elements(*final(w)) == open_elements(*old(w)),
        !tag_pending(*final(w)),
        declared(*final(w)),
{
    w.write(xml::writer::XmlEvent::characters(text))
}

/// Calls `EventWriter::write` with an `EndElement` event without a name.
/// While an element is open, the writer ends the innermost one: with ` />`
/// where its start tag is still pending, else with its end tag.
#[verifier::external_body]
pub(crate) fn write_end(w: &mut EventWriter<Vec<u8>>) -> (r: Result<(), xml::writer::Error>)
    requires
        open_elements(*old(w)).len() > 0,
    ensures
        r is Ok,
        written(*final(w)) == written(*old(w)) + (if tag_pending(*old(w)) {
            empty_element_end()
        } else {
            end_tag(open_elements(*old(w)).last())
        }),
        open_elements(*final(w)) == open_elements(*old(w)).drop_last(),
        !tag_pending(*final(w)),
        declared(*final(w)) == declared(*old(w)),
{
    w.write(xml::writer::XmlEvent::end_element())
}

/// Calls `EventWriter::into_inner`, which hands out the sink: the bytes
/// of the text written, in UTF-8.
#[verifier::external_body]
pub(crate) fn into_bytes(w: EventWriter<Vec<u8>>) -> (bytes: Vec<u8>)
    ensures
        bytes@ == encode_utf8(written(w)),
{
    w.into_inner()
}

} // verus!
