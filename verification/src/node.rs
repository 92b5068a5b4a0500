//! The generic document tree that the decoders read.

use vstd::prelude::*;

verus! {

/// A number of a document.
#[derive(Clone, Copy, Debug, PartialEq, Eq, Structural)]
pub enum Number {
    /// A whole number. Document sources yield values from `i64::MIN` to
    /// `u64::MAX`; each field accepts its own range.
    Integer(i128),
    /// A real number, held as the bit pattern of its IEEE 754 binary64
    /// encoding.
    Real(u64),
}

/// A node of a document: a scalar, a sequence of nodes, or a mapping, which
/// is a list of key and value pairs in document order.
#[derive(Debug, PartialEq)]
pub enum Node {
    Null,
    Bool(bool),
    Number(Number),
    String(String),
    Sequence(Vec<Node>),
    Mapping(Vec<(Node, Node)>),
}

/// The mathematical value of a [`Node`].
#[verifier::ext_equal]
pub enum Doc {
    Null,
    Bool(bool),
    Number(Number),
    String(Seq<char>),
    Sequence(Seq<Doc>),
    Mapping(Seq<(Doc, Doc)>),
}

/// The value of a node.
pub open spec fn doc_of(node: Node) -> Doc
    decreases node,
{
    match node {
        Node::Null => Doc::Null,
        Node::Bool(b) => Doc::Bool(b),
        Node::Number(n) => Doc::Number(n),
        Node::String(s) => Doc::String(s@),
        Node::Sequence(items) => Doc::Sequence(
            Seq::new(
                items.len() as nat,
                |i: int|
                    if 0 <= i < items.len() {
                        doc_of(items[i])
                    } else {
                        Doc::Null
                    },
            ),
        ),
        Node::Mapping(entries) => Doc::Mapping(
            Seq::new(
                entries.len() as nat,
                |i: int|
                    if 0 <= i < entries.len() {
                        (doc_of(entries[i].0), doc_of(entries[i].1))
                    } else {
                        (Doc::Null, Doc::Null)
                    },
            ),
        ),
    }
}

impl View for Node {
    type V = Doc;

    open spec fn view(&self) -> Doc {
        doc_of(*self)
    }
}

/// The values of a list of nodes.
pub open spec fn docs_of(items: Seq<Node>) -> Seq<Doc> {
    Seq::new(items.len(), |i: int| items[i]@)
}

/// The values of the entries of a mapping.
pub open spec fn entries_of(entries: Seq<(Node, Node)>) -> Seq<(Doc, Doc)> {
    Seq::new(entries.len(), |i: int| (entries[i].0@, entries[i].1@))
}

/// The value of a sequence node is the list of its items' values.
pub proof fn lemma_sequence_view(items: Vec<Node>)
    ensures
        Node::Sequence(items)@ == Doc::Sequence(docs_of(items@)),
{
    assert(Node::Sequence(items)@->Sequence_0 =~= docs_of(items@));
}

/// The value of a mapping node is the list of its entries' values.
pub proof fn lemma_mapping_view(entries: Vec<(Node, Node)>)
    ensures
        Node::Mapping(entries)@ == Doc::Mapping(entries_of(entries@)),
{
    assert(Node::Mapping(entries)@->Mapping_0 =~= entries_of(entries@));
}

impl Node {
    /// A string node holding `text`.
    pub fn text(text: &str) -> (node: Node)
        ensures
            node@ == Doc::String(text@),
    {
        Node::String(text.to_string())
    }
}

} // verus!
