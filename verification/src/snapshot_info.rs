//! What the connection actor reports of a snapshot, read from the
//! hypervisor's description of it.

use vstd::prelude::*;
use crate::text::{opt_text, same_text};

verus! {

/// A node of a parsed document, as plain values.
#[derive(Clone, Debug, PartialEq, Eq)]
pub struct XmlNode {
    /// Whether the node is an element.
    pub element: bool,
    /// The local name of an element; empty for other nodes.
    pub name: String,
    /// The text that the node starts with, if it starts with text.
    pub text: Option<String>,
}

/// The mathematical value of an [`XmlNode`].
pub struct NodeView {
    pub element: bool,
    pub name: Seq<char>,
    pub text: Option<Seq<char>>,
}

impl View for XmlNode {
    type V = NodeView;

    open spec fn view(&self) -> NodeView {
        NodeView { element: self.element, name: self.name@, text: opt_text(self.text) }
    }
}

/// The values of a sequence of nodes.
pub open spec fn node_views(nodes: Seq<XmlNode>) -> Seq<NodeView> {
    nodes.map_values(|n: XmlNode| n@)
}

/// The nodes of the document `xml` in document order, the root node
/// first; `None` if `xml` is not a well-formed document.
pub uninterp spec fn xml_nodes(xml: Seq<char>) -> Option<Seq<NodeView>>;

/// The value of an optional list of nodes.
pub open spec fn opt_nodes(nodes: Option<Vec<XmlNode>>) -> Option<Seq<NodeView>> {
    match nodes {
        Some(nodes) => Some(node_views(nodes@)),
        None => None,
    }
}

/// `roxmltree::Document::parse` and `Document::descendants`: the nodes
/// of the document in document order, each as whether it is an element,
/// its local tag name and its text. The result depends on `xml` alone.
#[verifier::external_body]
pub(crate) fn parse_nodes(xml: &str) -> (nodes: Option<Vec<XmlNode>>)
    ensures
        opt_nodes(nodes) == xml_nodes(xml@),
{
    let doc = roxmltree::Document::parse(xml).ok()?;
    Some(
        doc.descendants().map(
            |n| XmlNode {
                element: n.is_element(),
                name: n.tag_name().name().to_string(),
                text: n.text().map(|t| t.to_string()),
            },
        ).collect(),
    )
}

/// Whether `n` is an element named `tag`.
pub open spec fn is_tagged(n: NodeView, tag: Seq<char>) -> bool {
    n.element && n.name == tag
}

/// The text of the first element named `tag`; empty if there is no
/// such element or it does not start with text.
pub open spec fn tag_text(nodes: Seq<NodeView>, tag: Seq<char>) -> Seq<char>
    decreases nodes.len(),
{
    if nodes.len() == 0 {
        Seq::empty()
    } else if is_tagged(nodes[0], tag) {
        match nodes[0].text {
            Some(text) => text,
            None => Seq::empty(),
        }
    } else {
        tag_text(nodes.drop_first(), tag)
    }
}

/// Nodes that are not named `tag` can be skipped.
proof fn lemma_tag_text_skip(nodes: Seq<NodeView>, tag: Seq<char>, n: int)
    requires
        0 <= n <= nodes.len(),
        forall|j: int| 0 <= j < n ==> !is_tagged(#[trigger] nodes[j], tag),
    ensures
        tag_text(nodes, tag) == tag_text(nodes.skip(n), tag),
    decreases n,
{
    if n == 0 {
        assert(nodes.skip(0) =~= nodes);
    } else {
        let rest = nodes.drop_first();
        assert forall|j: int| 0 <= j < n - 1 implies !is_tagged(#[trigger] rest[j], tag) by {
            assert(rest[j] == nodes[j + 1]);
        }
        lemma_tag_text_skip(rest, tag, n - 1);
        assert(rest.skip(n - 1) =~= nodes.skip(n));
        assert(!is_tagged(nodes[0], tag));
    }
}

/// The text of the first element named `tag`.
pub fn text_by_tag(nodes: &Vec<XmlNode>, tag: &str) -> (text: String)
    ensures
        text@ == tag_text(node_views(nodes@), tag@),
{
    let ghost all = node_views(nodes@);
    let mut i: usize = 0;
    while i < nodes.len()
        invariant
            i <= nodes.len(),
            all == node_views(nodes@),
            forall|j: int| 0 <= j < i ==> !is_tagged(#[trigger] all[j], tag@),
        decreases nodes.len() - i,
    {
        let node = &nodes[i];
        if node.element && same_text(node.name.as_str(), tag) {
            proof {
                lemma_tag_text_skip(all, tag@, i as int);
                assert(all.skip(i as int)[0] == node@);
            }
            return match &node.text {
                Some(text) => text.clone(),
                None => String::new(),
            };
        }
        i += 1;
    }
    proof {
        lemma_tag_text_skip(all, tag@, i as int);
        assert(all.skip(i as int).len() == 0);
    }
    String::new()
}

/// What is reported of a snapshot.
#[derive(Clone, Debug, PartialEq, Eq)]
pub struct SnapshotRecord {
    pub name: String,
    pub description: String,
    pub state: String,
    pub creation_time: String,
    pub is_current: bool,
}

/// The mathematical value of a [`SnapshotRecord`].
pub struct RecordView {
    pub name: Seq<char>,
    pub description: Seq<char>,
    pub state: Seq<char>,
    pub creation_time: Seq<char>,
    pub is_current: bool,
}

impl View for SnapshotRecord {
    type V = RecordView;

    open spec fn view(&self) -> RecordView {
        RecordView {
            name: self.name@,
            description: self.description@,
            state: self.state@,
            creation_time: self.creation_time@,
            is_current: self.is_current,
        }
    }
}

/// The record of a snapshot whose description has the given nodes.
pub open spec fn record_of(nodes: Seq<NodeView>, is_current: bool) -> RecordView {
    RecordView {
        name: tag_text(nodes, "name"@),
        description: tag_text(nodes, "description"@),
        state: tag_text(nodes, "state"@),
        creation_time: tag_text(nodes, "creationTime"@),
        is_current,
    }
}

/// The record of a snapshot, from the nodes of its description.
pub fn snapshot_record(nodes: &Vec<XmlNode>, is_current: bool) -> (record: SnapshotRecord)
    ensures
        record@ == record_of(node_views(nodes@), is_current),
{
    SnapshotRecord {
        name: text_by_tag(nodes, "name"),
        description: text_by_tag(nodes, "description"),
        state: text_by_tag(nodes, "state"),
        creation_time: text_by_tag(nodes, "creationTime"),
        is_current,
    }
}

} // verus!
