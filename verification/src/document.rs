//! Documents: what a JSON, YAML or TOML text holds, apart from its spelling.

use vstd::prelude::*;

verus! {

/// The content of a document, as mathematical values.
pub enum Doc {
    /// Nothing: `null` in JSON, `~` in YAML.
    Null,
    /// True or false.
    Flag(bool),
    /// A number, by its literal.
    Number(Seq<char>),
    /// A text.
    Text(Seq<char>),
    /// A list of documents.
    List(Seq<Doc>),
    /// A table of keys and values, in the order of the text.
    Table(Seq<(Doc, Doc)>),
    /// A value under a tag, as YAML has them: the tag and the value.
    Tagged(Seq<char>, Box<Doc>),
    /// A date or a time, as TOML has them, by its text.
    Date(Seq<char>),
}

/// A document in memory.
#[derive(Debug)]
pub enum Node {
    Null,
    Flag(bool),
    Number(String),
    Text(String),
    List(Vec<Node>),
    Table(Vec<(Node, Node)>),
    Tagged(String, Box<Node>),
    Date(String),
}

impl Node {
    /// What the node holds.
    pub open spec fn content(&self) -> Doc
        decreases self,
    {
        match self {
            Node::Null => Doc::Null,
            Node::Flag(b) => Doc::Flag(*b),
            Node::Number(t) => Doc::Number(t@),
            Node::Text(t) => Doc::Text(t@),
            Node::List(items) => Doc::List(
                Seq::new(
                    items@.len(),
                    |i: int|
                        if 0 <= i < items@.len() {
                            items@[i].content()
                        } else {
                            Doc::Null
                        },
                ),
            ),
            Node::Table(entries) => Doc::Table(
                Seq::new(
                    entries@.len(),
                    |i: int|
                        if 0 <= i < entries@.len() {
                            (entries@[i].0.content(), entries@[i].1.content())
                        } else {
                            (Doc::Null, Doc::Null)
                        },
                ),
            ),
            Node::Tagged(tag, inner) => Doc::Tagged(tag@, Box::new(inner.content())),
            Node::Date(t) => Doc::Date(t@),
        }
    }
}

impl View for Node {
    type V = Doc;

    open spec fn view(&self) -> Doc {
        self.content()
    }
}

/// What a list of nodes holds.
pub open spec fn nodes_view(items: Seq<Node>) -> Seq<Doc> {
    Seq::new(items.len(), |i: int| items[i]@)
}

/// What a list of entries holds.
pub open spec fn entries_view(entries: Seq<(Node, Node)>) -> Seq<(Doc, Doc)> {
    Seq::new(entries.len(), |i: int| (entries[i].0@, entries[i].1@))
}

impl Node {
    /// The view of a list is the list of the views.
    pub proof fn lemma_list_view(items: Vec<Node>)
        ensures
            Node::List(items)@ == Doc::List(nodes_view(items@)),
    {
        assert(Node::List(items)@->List_0 =~= nodes_view(items@));
    }

    /// The view of a table is the table of the views.
    pub proof fn lemma_table_view(entries: Vec<(Node, Node)>)
        ensures
            Node::Table(entries)@ == Doc::Table(entries_view(entries@)),
    {
        reveal_with_fuel(Node::content, 2);
        assert(Node::Table(entries)@->Table_0 =~= entries_view(entries@));
    }

    /// The text that the node holds, if it holds a text.
    pub fn as_text(&self) -> (r: Option<&String>)
        ensures
            match r {
                Some(t) => self@ == Doc::Text(t@),
                None => !(self@ is Text),
            },
    {
        match self {
            Node::Text(t) => Some(t),
            _ => None,
        }
    }
}

} // verus!
