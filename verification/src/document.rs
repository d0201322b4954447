//! A structured document, as far as entries are read from it.

use vstd::prelude::*;

verus! {

/// A node of a structured document.
#[derive(Debug)]
pub enum Node {
    /// A string.
    Scalar(String),
    /// A list of nodes.
    Sequence(Vec<Node>),
    /// Keys with their nodes, in document order. A key is a node too.
    Mapping(Vec<(Node, Node)>),
    /// Anything else; also what stands for a node that is not there.
    Bad,
}

/// The node under `key` among `entries`: that of the first entry whose key is
/// this string, if there is one.
pub open spec fn lookup(entries: Seq<(Node, Node)>, key: Seq<char>) -> Option<Node>
    decreases entries.len(),
{
    if entries.len() == 0 {
        None
    } else if entries[0].0.text() == Some(key) {
        Some(entries[0].1)
    } else {
        lookup(entries.drop_first(), key)
    }
}

/// The strings among `items`, in order; other nodes are left out.
pub open spec fn scalars(items: Seq<Node>) -> Seq<Seq<char>>
    decreases items.len(),
{
    if items.len() == 0 {
        Seq::empty()
    } else {
        match items.last() {
            Node::Scalar(text) => scalars(items.drop_last()).push(text@),
            _ => scalars(items.drop_last()),
        }
    }
}

impl Node {
    /// The node under `key`, if this node is a mapping that has the key.
    pub open spec fn field(self, key: Seq<char>) -> Option<Node> {
        match self {
            Node::Mapping(entries) => lookup(entries@, key),
            _ => None,
        }
    }

    /// The string that this node is, if it is one.
    pub open spec fn text(self) -> Option<Seq<char>> {
        match self {
            Node::Scalar(text) => Some(text@),
            _ => None,
        }
    }

    /// This node read as a list of strings: a string is a list of one, a list
    /// gives the strings among its items, and anything else gives none.
    pub open spec fn strings(self) -> Seq<Seq<char>> {
        match self {
            Node::Sequence(items) => scalars(items@),
            Node::Scalar(text) => seq![text@],
            _ => Seq::empty(),
        }
    }

    /// The string under `key`, if this node is a mapping that has a string
    /// there.
    pub open spec fn text_at(self, key: Seq<char>) -> Option<Seq<char>> {
        match self.field(key) {
            Some(node) => node.text(),
            None => None,
        }
    }

    /// The list of strings under `key`; empty if nothing is there.
    pub open spec fn strings_at(self, key: Seq<char>) -> Seq<Seq<char>> {
        match self.field(key) {
            Some(node) => node.strings(),
            None => Seq::empty(),
        }
    }

    /// The node under `key`, if this node is a mapping that has the key.
    pub fn get(&self, key: &str) -> (found: Option<&Node>)
        ensures
            found == match self.field(key@) {
                Some(node) => Some(&node),
                None => None,
            },
    {
        match self {
            Node::Mapping(entries) => {
                let wanted = key.to_owned();
                let mut i: usize = 0;
                assert(entries@.skip(0) =~= entries@);
                while i < entries.len()
                    invariant
                        i <= entries.len(),
                        wanted@ == key@,
                        self.field(key@) == lookup(entries@, key@),
                        lookup(entries@, key@) == lookup(entries@.skip(i as int), key@),
                    decreases entries.len() - i,
                {
                    assert(entries@.skip(i as int).drop_first() =~= entries@.skip(i + 1));
                    match &entries[i].0 {
                        Node::Scalar(text) => {
                            if *text == wanted {
                                return Some(&entries[i].1);
                            }
                        },
                        _ => {},
                    }
                    i += 1;
                }
                None
            },
            _ => None,
        }
    }

    /// The string under `key`, if this node is a mapping that has a string
    /// there.
    pub fn get_string(&self, key: &str) -> (text: Option<String>)
        ensures
            text.deep_view() == self.text_at(key@),
    {
        match self.get(key) {
            Some(node) => match node.as_str() {
                Some(text) => Some(text.to_owned()),
                None => None,
            },
            None => None,
        }
    }

    /// The list of strings under `key`; empty if nothing is there.
    pub fn get_strings(&self, key: &str) -> (strings: Vec<String>)
        ensures
            strings.deep_view() == self.strings_at(key@),
    {
        match self.get(key) {
            Some(node) => str_vec(node),
            None => Vec::new(),
        }
    }

    /// The string that this node is, if it is one.
    pub fn as_str(&self) -> (text: Option<&str>)
        ensures
            text.deep_view() == self.text(),
    {
        match self {
            Node::Scalar(text) => Some(text.as_str()),
            _ => None,
        }
    }
}

/// Reads a node that may be one string or a list of strings: a string gives a
/// list of one, a list gives its strings and drops its other items, and
/// anything else gives the empty list.
pub fn str_vec(y: &Node) -> (strings: Vec<String>)
    ensures
        strings.deep_view() == y.strings(),
{
    let mut strings: Vec<String> = Vec::new();
    match y {
        Node::Sequence(items) => {
            let mut i: usize = 0;
            while i < items.len()
                invariant
                    i <= items.len(),
                    strings.deep_view() == scalars(items@.take(i as int)),
                decreases items.len() - i,
            {
                proof {
                    let upto = items@.take(i + 1);
                    assert(upto.drop_last() =~= items@.take(i as int));
                }
                match &items[i] {
                    Node::Scalar(text) => {
                        strings.push(text.clone());
                    },
                    _ => {},
                }
                i += 1;
            }
            assert(items@.take(i as int) =~= items@);
        },
        Node::Scalar(text) => {
            strings.push(text.clone());
        },
        _ => {},
    }
    strings
}

} // verus!
