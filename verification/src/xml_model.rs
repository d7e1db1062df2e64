//! The events of a structural document, as plain values.

use vstd::prelude::*;
use vstd::string::*;

verus! {

/// What kind of markup an event is.
#[derive(Clone, Copy, Debug, PartialEq, Eq, Structural)]
pub enum EventKind {
    /// An opening tag; the content is the name followed by the raw attributes.
    Start,
    /// A closing tag; the content is the name.
    End,
    /// A self-closing tag; the content is as for `Start`.
    Empty,
    /// Character data between tags, in escaped form.
    Text,
    /// A CDATA section.
    CData,
    /// A comment.
    Comment,
    /// The XML declaration.
    Decl,
    /// A processing instruction.
    PI,
    /// A document type definition.
    DocType,
}

/// One event of a document: its kind and the text between its delimiters.
#[derive(Clone, Debug, PartialEq, Eq)]
pub struct XmlEvent {
    pub kind: EventKind,
    pub content: String,
}

/// The mathematical value of an [`XmlEvent`].
pub struct Token {
    pub kind: EventKind,
    pub content: Seq<char>,
}

impl View for XmlEvent {
    type V = Token;

    open spec fn view(&self) -> Token {
        Token { kind: self.kind, content: self.content@ }
    }
}

/// The values of a sequence of events.
pub open spec fn tokens(events: Seq<XmlEvent>) -> Seq<Token> {
    events.map_values(|e: XmlEvent| e@)
}

/// The four characters that end a tag's name.
pub open spec fn is_xml_space(c: char) -> bool {
    c == ' ' || c == '\r' || c == '\n' || c == '\t'
}

/// The number of characters before the first XML whitespace in `content`,
/// or its length if there is none.
pub open spec fn name_len(content: Seq<char>) -> nat
    decreases content.len(),
{
    if content.len() == 0 || is_xml_space(content[0]) {
        0
    } else {
        1 + name_len(content.drop_first())
    }
}

/// The name of an opening tag with the given content.
pub open spec fn tag_name(content: Seq<char>) -> Seq<char> {
    content.take(name_len(content) as int)
}

/// A name that contains no XML whitespace, so that a tag written with it
/// is read back under the same name.
pub open spec fn is_plain_name(name: Seq<char>) -> bool {
    name_len(name) == name.len()
}

/// `name_len` is the index of the first XML whitespace.
pub proof fn lemma_name_len_is_first_space(content: Seq<char>, n: int)
    requires
        0 <= n <= content.len(),
        forall|j: int| 0 <= j < n ==> !is_xml_space(#[trigger] content[j]),
        n == content.len() || is_xml_space(content[n]),
    ensures
        name_len(content) == n,
    decreases n,
{
    if n > 0 {
        let rest = content.drop_first();
        assert forall|j: int| 0 <= j < n - 1 implies !is_xml_space(#[trigger] rest[j]) by {
            assert(rest[j] == content[j + 1]);
        }
        lemma_name_len_is_first_space(rest, n - 1);
    }
}

/// A plain name is its own tag name.
pub proof fn lemma_plain_name_is_tag_name(name: Seq<char>)
    requires
        is_plain_name(name),
    ensures
        tag_name(name) == name,
{
    assert(name.take(name.len() as int) =~= name);
}

/// `s` without the XML whitespace at its start.
pub open spec fn without_leading(s: Seq<char>) -> Seq<char>
    decreases s.len(),
{
    if s.len() > 0 && is_xml_space(s[0]) {
        without_leading(s.drop_first())
    } else {
        s
    }
}

/// `s` without the XML whitespace at its end.
pub open spec fn without_trailing(s: Seq<char>) -> Seq<char>
    decreases s.len(),
{
    if s.len() > 0 && is_xml_space(s.last()) {
        without_trailing(s.drop_last())
    } else {
        s
    }
}

/// How a reader that trims text hands out an event that was written:
/// a text without the whitespace around it, and not at all if nothing
/// is left of it; every other event as it is.
pub open spec fn as_read(t: Token) -> Seq<Token> {
    if t.kind == EventKind::Text {
        let content = without_trailing(without_leading(t.content));
        if content.len() == 0 {
            Seq::empty()
        } else {
            seq![Token { kind: EventKind::Text, content }]
        }
    } else {
        seq![t]
    }
}

/// The events in the form in which a reader that trims text hands them out.
pub open spec fn read_form(events: Seq<Token>) -> Seq<Token>
    decreases events.len(),
{
    if events.len() == 0 {
        Seq::empty()
    } else {
        read_form(events.drop_last()) + as_read(events.last())
    }
}

/// Events as a reader that trims text hands them out: no text is empty
/// or has whitespace around it.
pub open spec fn trimmed_texts(events: Seq<Token>) -> bool {
    forall|i: int| 0 <= i < events.len() ==> as_read(#[trigger] events[i]) == seq![events[i]]
}

impl XmlEvent {
    /// An event of the given kind and content.
    pub fn new(kind: EventKind, content: &str) -> (e: XmlEvent)
        ensures
            e@ == (Token { kind, content: content@ }),
    {
        XmlEvent { kind, content: content.to_owned() }
    }

    /// A copy of this event.
    pub fn duplicate(&self) -> (e: XmlEvent)
        ensures
            e@ == self@,
    {
        XmlEvent { kind: self.kind, content: self.content.clone() }
    }

    /// Whether the name of this tag is `target`.
    pub fn has_name(&self, target: &str) -> (b: bool)
        ensures
            b == (tag_name(self.content@) == target@),
    {
        let content = self.content.as_str();
        let len = content.unicode_len();
        let mut n: usize = 0;
        while n < len && !is_space(content.get_char(n))
            invariant
                n <= len,
                len == content@.len(),
                forall|j: int| 0 <= j < n ==> !is_xml_space(#[trigger] content@[j]),
            decreases len - n,
        {
            n += 1;
        }
        proof {
            lemma_name_len_is_first_space(content@, n as int);
        }
        let name = content.substring_char(0, n).to_owned();
        let wanted = target.to_owned();
        name == wanted
    }

    /// Whether this is an opening tag whose name is `target`.
    pub fn opens(&self, target: &str) -> (b: bool)
        ensures
            b == (self.kind == EventKind::Start && tag_name(self.content@) == target@),
    {
        self.kind == EventKind::Start && self.has_name(target)
    }
}

/// Whether `c` ends a tag's name.
pub fn is_space(c: char) -> (b: bool)
    ensures
        b == is_xml_space(c),
{
    c == ' ' || c == '\r' || c == '\n' || c == '\t'
}

} // verus!
