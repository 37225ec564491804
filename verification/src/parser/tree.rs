//! The concrete parse tree: untyped nodes tagged by the grammar rule
//! that matched, holding the captured text of their spans.

use vstd::prelude::*;

verus! {

/// A node of the concrete parse tree. `Document` wraps the single
/// top-level element; the other variants carry their captured text.
#[derive(Debug, PartialEq)]
pub enum ParseTree {
    Document(Box<ParseTree>),
    Element { tag_name: String, attr: Option<(String, String)>, children: Vec<ParseTree> },
    Heading { level_digit: char, text: String },
    Comment { text: String },
    Description { text: String },
    Text { text: String },
}

/// Spec view of a concrete parse tree.
pub enum TreeV {
    Document(Box<TreeV>),
    Element { tag_name: Seq<char>, attr: Option<(Seq<char>, Seq<char>)>, children: Seq<TreeV> },
    Heading { level_digit: char, text: Seq<char> },
    Comment { text: Seq<char> },
    Description { text: Seq<char> },
    Text { text: Seq<char> },
}

/// View of an optional attribute assignment.
pub open spec fn attr_view(a: Option<(String, String)>) -> Option<(Seq<char>, Seq<char>)> {
    match a {
        Some(p) => Some((p.0@, p.1@)),
        None => None,
    }
}

pub open spec fn tree_view(t: ParseTree) -> TreeV
    decreases t,
{
    match t {
        ParseTree::Document(b) => TreeV::Document(Box::new(tree_view(*b))),
        ParseTree::Element { tag_name, attr, children } => TreeV::Element {
            tag_name: tag_name@,
            attr: attr_view(attr),
            children: trees_view(children@),
        },
        ParseTree::Heading { level_digit, text } => TreeV::Heading { level_digit, text: text@ },
        ParseTree::Comment { text } => TreeV::Comment { text: text@ },
        ParseTree::Description { text } => TreeV::Description { text: text@ },
        ParseTree::Text { text } => TreeV::Text { text: text@ },
    }
}

/// View of a sequence of parse trees, element by element.
pub open spec fn trees_view(ts: Seq<ParseTree>) -> Seq<TreeV>
    decreases ts,
{
    if ts.len() == 0 {
        Seq::empty()
    } else {
        seq![tree_view(ts[0])] + trees_view(ts.drop_first())
    }
}

pub proof fn lemma_trees_view(ts: Seq<ParseTree>)
    ensures
        trees_view(ts).len() == ts.len(),
        forall|i: int| 0 <= i < ts.len() ==> trees_view(ts)[i] == tree_view(ts[i]),
    decreases ts.len(),
{
    if ts.len() > 0 {
        lemma_trees_view(ts.drop_first());
    }
}

impl View for ParseTree {
    type V = TreeV;

    open spec fn view(&self) -> TreeV {
        tree_view(*self)
    }
}

} // verus!
