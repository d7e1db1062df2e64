//! Reading a document into events and writing events back, through
//! `quick_xml`, and the patcher on documents.

use vstd::prelude::*;
use quick_xml::events::{BytesCData, BytesDecl, BytesEnd, BytesStart, BytesText, Event};
use quick_xml::{Reader, Writer};
use crate::xml_model::{
    is_plain_name, read_form, tokens, trimmed_texts, EventKind, Token, XmlEvent,
};
use crate::xml_patch::{lemma_patch_idempotent_as_read, patch_events, patched};

verus! {

#[verifier::external_type_specification]
#[verifier::external_body]
#[verifier::reject_recursive_types(R)]
pub struct ExReader<R>(Reader<R>);

#[verifier::external_type_specification]
#[verifier::external_body]
#[verifier::reject_recursive_types(W)]
pub struct ExWriter<W>(Writer<W>);

/// What reading yields: the events up to the end of the input or to the
/// first error, and whether it was the end of the input.
pub struct Stream {
    pub events: Seq<Token>,
    pub complete: bool,
}

/// What a reader that trims text yields on `input`.
pub uninterp spec fn xml_stream(input: Seq<char>) -> Stream;

/// What `reader` has yet to yield.
pub uninterp spec fn reader_stream(reader: Reader<&[u8]>) -> Stream;

/// The events that `writer` was given, in order.
pub uninterp spec fn written(writer: Writer<Vec<u8>>) -> Seq<Token>;

/// The text that a writer which indents by two spaces produces for `events`.
pub uninterp spec fn xml_text(events: Seq<Token>) -> Seq<char>;

/// The escaped form of one character.
pub open spec fn escaped_char(c: char) -> Seq<char> {
    if c == '<' {
        seq!['&', 'l', 't', ';']
    } else if c == '>' {
        seq!['&', 'g', 't', ';']
    } else if c == '&' {
        seq!['&', 'a', 'm', 'p', ';']
    } else if c == '\'' {
        seq!['&', 'a', 'p', 'o', 's', ';']
    } else if c == '"' {
        seq!['&', 'q', 'u', 'o', 't', ';']
    } else {
        seq![c]
    }
}

/// The escaped form of a text: each of `<`, `>`, `&`, `'` and `"` is
/// replaced by its entity.
pub open spec fn escaped(text: Seq<char>) -> Seq<char>
    decreases text.len(),
{
    if text.len() == 0 {
        Seq::empty()
    } else {
        escaped(text.drop_last()) + escaped_char(text.last())
    }
}

/// One read from a document.
pub enum ReadStep {
    /// The next event.
    Event(XmlEvent),
    /// The input has ended.
    Eof,
    /// The input is malformed here.
    Malformed,
}

/// `Reader::from_str` followed by `Reader::trim_text(true)`: a reader
/// over `input` that trims the whitespace around text and skips text
/// that is empty after that, so that no text it yields is empty or has
/// whitespace around it. What it yields depends on `input` alone.
#[verifier::external_body]
fn open_reader<'a>(input: &'a str) -> (reader: Reader<&'a [u8]>)
    ensures
        reader_stream(reader) == xml_stream(input@),
        trimmed_texts(reader_stream(reader).events),
{
    let mut reader = Reader::from_str(input);
    reader.trim_text(true);
    reader
}

/// `Reader::read_event`: yields the first of the events that the reader
/// has yet to yield and keeps the rest, or reports the end of the input
/// or an error when none is left. An event is handed out as its kind and
/// the text between its delimiters.
#[verifier::external_body]
fn read_step(reader: &mut Reader<&[u8]>) -> (step: ReadStep)
    ensures
        match step {
            ReadStep::Event(e) => {
                &&& reader_stream(*old(reader)).events.len() > 0
                &&& e@ == reader_stream(*old(reader)).events[0]
                &&& reader_stream(*final(reader)).events == reader_stream(
                    *old(reader),
                ).events.drop_first()
                &&& reader_stream(*final(reader)).complete == reader_stream(*old(reader)).complete
            },
            ReadStep::Eof => {
                &&& reader_stream(*old(reader)).events.len() == 0
                &&& reader_stream(*old(reader)).complete
            },
            ReadStep::Malformed => {
                &&& reader_stream(*old(reader)).events.len() == 0
                &&& !reader_stream(*old(reader)).complete
            },
        },
{
    let event = match reader.read_event() { Ok(event) => event, Err(_) => return ReadStep::Malformed };
    let kind = match event {
        Event::Start(_) => EventKind::Start,
        Event::End(_) => EventKind::End,
        Event::Empty(_) => EventKind::Empty,
        Event::Text(_) => EventKind::Text,
        Event::CData(_) => EventKind::CData,
        Event::Comment(_) => EventKind::Comment,
        Event::Decl(_) => EventKind::Decl,
        Event::PI(_) => EventKind::PI,
        Event::DocType(_) => EventKind::DocType,
        Event::Eof => return ReadStep::Eof,
    };
    ReadStep::Event(XmlEvent { kind, content: String::from_utf8_lossy(&event).into_owned() })
}

/// `Writer::new_with_indent` over an empty buffer, with an indent of two
/// spaces: nothing is written yet.
#[verifier::external_body]
fn new_writer() -> (writer: Writer<Vec<u8>>)
    ensures
        written(writer) == Seq::<Token>::empty(),
{
    Writer::new_with_indent(Vec::new(), b' ', 2)
}

/// `Writer::write_event`: the event is added to what was written. The
/// event is rebuilt from its kind and content; the writer copies a tag's
/// content whole, so the length of its name is left at zero.
#[verifier::external_body]
fn write_event(writer: &mut Writer<Vec<u8>>, event: &XmlEvent)
    ensures
        written(*final(writer)) == written(*old(writer)).push(event@),
{
    let text = event.content.as_str();
    let _ = writer.write_event(match event.kind {
        EventKind::Start => Event::Start(BytesStart::from_content(text, 0)),
        EventKind::End => Event::End(BytesEnd::new(text)),
        EventKind::Empty => Event::Empty(BytesStart::from_content(text, 0)),
        EventKind::Text => Event::Text(BytesText::from_escaped(text)),
        EventKind::CData => Event::CData(BytesCData::new(text)),
        EventKind::Comment => Event::Comment(BytesText::from_escaped(text)),
        EventKind::Decl => Event::Decl(BytesDecl::from_start(BytesStart::from_content(text, 0))),
        EventKind::PI => Event::PI(BytesText::from_escaped(text)),
        EventKind::DocType => Event::DocType(BytesText::from_escaped(text)),
    });
}

/// `Writer::into_inner`: the text of what was written, which depends on
/// the events alone.
#[verifier::external_body]
fn finish_writer(writer: Writer<Vec<u8>>) -> (text: String)
    ensures
        text@ == xml_text(written(writer)),
{
    String::from_utf8_lossy(&writer.into_inner()).into_owned()
}

/// `quick_xml::escape::escape`: replaces the five special characters by
/// their entities and keeps every other character.
#[verifier::external_body]
fn escape_text(text: &str) -> (out: String)
    ensures
        out@ == escaped(text@),
{
    quick_xml::escape::escape(text).into_owned()
}

/// Reads a whole document. `None` means that it is malformed. No text
/// that is read is empty or has whitespace around it.
pub fn read_events(input: &str) -> (out: Option<Vec<XmlEvent>>)
    ensures
        match out {
            Some(events) => xml_stream(input@).complete && tokens(events@) == xml_stream(
                input@,
            ).events,
            None => !xml_stream(input@).complete,
        },
        trimmed_texts(xml_stream(input@).events),
{
    let mut reader = open_reader(input);
    let mut events: Vec<XmlEvent> = Vec::new();
    let ghost all = xml_stream(input@).events;
    assert(tokens(events@) + reader_stream(reader).events =~= all);
    loop
        invariant
            all == xml_stream(input@).events,
            trimmed_texts(all),
            reader_stream(reader).complete == xml_stream(input@).complete,
            tokens(events@) + reader_stream(reader).events == all,
        decreases reader_stream(reader).events.len(),
    {
        let ghost before = reader_stream(reader).events;
        let ghost read = tokens(events@);
        match read_step(&mut reader) {
            ReadStep::Event(event) => {
                events.push(event);
                assert(tokens(events@) =~= read.push(event@));
                assert(read.push(before[0]) + before.drop_first() =~= read + before);
            },
            ReadStep::Eof => {
                assert(read + before =~= read);
                return Some(events);
            },
            ReadStep::Malformed => {
                return None;
            },
        }
    }
}

/// Writes events as a document, indented by two spaces.
pub fn write_events(events: &Vec<XmlEvent>) -> (text: String)
    ensures
        text@ == xml_text(tokens(events@)),
{
    let mut writer = new_writer();
    let mut i: usize = 0;
    assert(tokens(events@).take(0) =~= Seq::<Token>::empty());
    while i < events.len()
        invariant
            i <= events.len(),
            written(writer) == tokens(events@).take(i as int),
        decreases events.len() - i,
    {
        let event = &events[i];
        write_event(&mut writer, event);
        assert(tokens(events@).take(i + 1) =~= tokens(events@).take(i as int).push(event@));
        i += 1;
    }
    assert(tokens(events@).take(i as int) =~= tokens(events@));
    finish_writer(writer)
}

/// The patched text of a document, if it is well formed.
pub open spec fn edited(input: Seq<char>, target: Seq<char>, new_text: Seq<char>, depth: int) -> Option<
    Seq<char>,
> {
    if xml_stream(input).complete {
        Some(xml_text(patched(xml_stream(input).events, target, escaped(new_text), depth)))
    } else {
        None
    }
}

/// Sets the text of the child `target_element` of every element at
/// `defined_depth` to `new_text`, adding the child as the last one where
/// an element has none. `None` means that `input` is malformed.
pub fn edit_xml_text(input: &String, target_element: &str, new_text: &str, defined_depth: i64) -> (out:
    Option<String>)
    ensures
        match out {
            Some(text) => edited(input@, target_element@, new_text@, defined_depth as int) == Some(
                text@,
            ),
            None => edited(input@, target_element@, new_text@, defined_depth as int) is None,
        },
{
    match read_events(input.as_str()) {
        Some(events) => {
            let text = escape_text(new_text);
            let result = patch_events(&events, target_element, text.as_str(), defined_depth);
            Some(write_events(&result))
        },
        None => None,
    }
}

/// Whether a document written from `events` is read back as those
/// events in the form in which a reader that trims text hands them out.
pub open spec fn reads_back(events: Seq<Token>) -> bool {
    xml_stream(xml_text(events)) == (Stream { events: read_form(events), complete: true })
}

/// Patching a document is idempotent: where the patched document is
/// read back as it was written, but for the whitespace around its texts,
/// patching it again with the same name, text and depth gives the same
/// text. This holds for every new text, also for one that is empty or
/// all whitespace. The name must be free of whitespace, as the name of
/// an element is, and the texts of the document must be as
/// `read_events` yields them.
pub proof fn lemma_edit_idempotent(
    input: Seq<char>,
    target: Seq<char>,
    new_text: Seq<char>,
    depth: int,
)
    requires
        is_plain_name(target),
    ensures
        edited(input, target, new_text, depth) matches Some(once) ==> (trimmed_texts(
            xml_stream(input).events,
        ) && reads_back(patched(xml_stream(input).events, target, escaped(new_text), depth))
            ==> edited(once, target, new_text, depth) == Some(once)),
{
    if trimmed_texts(xml_stream(input).events) {
        lemma_patch_idempotent_as_read(xml_stream(input).events, target, escaped(new_text), depth);
    }
}

} // verus!
