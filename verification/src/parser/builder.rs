//! The AST builder: a depth-first walk of the concrete parse tree that
//! produces the typed `Node` tree, or the first error met. No partial
//! tree is ever returned.

use vstd::prelude::*;

use crate::parser::ast::{
    comment, desc, elem, heading, nodes_view, text, AttrMap, Children, ChildrenV, ElementParamsV,
    HeadingParamsV, Node, NodeTypeV, NodeV,
};
use crate::parser::ast::lemma_nodes_view;
use crate::parser::errors::{BuildError, BuildErrorV};
use crate::parser::grammar::DEFAULT_MAX_DEPTH;
use crate::parser::scan::{is_digit, is_digit_exec, trim, trim_substr};
use crate::parser::tree::{lemma_trees_view, tree_view, trees_view, ParseTree, TreeV};

verus! {

pub open spec fn node_res_view(r: Result<Node, BuildError>) -> Result<NodeV, BuildErrorV> {
    match r {
        Ok(n) => Ok(n@),
        Err(e) => Err(e@),
    }
}

pub open spec fn nodes_res_view(r: Result<Vec<Node>, BuildError>) -> Result<
    Seq<NodeV>,
    BuildErrorV,
> {
    match r {
        Ok(v) => Ok(nodes_view(v@)),
        Err(e) => Err(e@),
    }
}

/// The attribute map a single optional assignment denotes.
pub open spec fn attrs_of(attr: Option<(Seq<char>, Seq<char>)>) -> Map<Seq<char>, Seq<char>> {
    match attr {
        Some(p) => Map::empty().insert(p.0, p.1),
        None => Map::empty(),
    }
}

/// What the builder makes of one parse-tree node below the document
/// level, at element nesting depth `depth`.
pub open spec fn build_spec(t: TreeV, depth: int, limit: int) -> Result<NodeV, BuildErrorV>
    decreases t,
{
    match t {
        TreeV::Document(_) => Err(BuildErrorV::InternalInconsistency),
        TreeV::Element { tag_name, attr, children } => {
            if depth > limit {
                Err(BuildErrorV::NestingTooDeep { limit })
            } else {
                match build_items(children, depth + 1, limit) {
                    Ok(ns) => Ok(
                        NodeV {
                            params: NodeTypeV::Element(
                                ElementParamsV { tag_name, attrs: attrs_of(attr) },
                            ),
                            children: ChildrenV::Nodes(ns),
                        },
                    ),
                    Err(e) => Err(e),
                }
            }
        },
        TreeV::Heading { level_digit, text } => {
            if !is_digit(level_digit) {
                Err(BuildErrorV::InternalInconsistency)
            } else {
                let lvl = level_digit as int - '0' as int;
                if 1 <= lvl && lvl <= 6 {
                    Ok(
                        NodeV {
                            params: NodeTypeV::Heading(HeadingParamsV { level: lvl as u8 }),
                            children: ChildrenV::Text(text),
                        },
                    )
                } else {
                    Err(BuildErrorV::InvalidHeadingLevel { level: lvl as u8 })
                }
            }
        },
        TreeV::Comment { text } => Ok(
            NodeV { params: NodeTypeV::Comment, children: ChildrenV::Text(text) },
        ),
        TreeV::Description { text } => Ok(
            NodeV { params: NodeTypeV::Description, children: ChildrenV::Text(text) },
        ),
        TreeV::Text { text } => Ok(
            NodeV { params: NodeTypeV::Text, children: ChildrenV::Text(trim(text)) },
        ),
    }
}

/// Build every child in source order; the first failure aborts the walk.
pub open spec fn build_items(ts: Seq<TreeV>, depth: int, limit: int) -> Result<
    Seq<NodeV>,
    BuildErrorV,
>
    decreases ts,
{
    if ts.len() == 0 {
        Ok(Seq::empty())
    } else {
        match build_spec(ts[0], depth, limit) {
            Err(e) => Err(e),
            Ok(n0) => match build_items(ts.drop_first(), depth, limit) {
                Err(e) => Err(e),
                Ok(rest) => Ok(seq![n0] + rest),
            },
        }
    }
}

/// What the builder makes of a whole parse tree: a document's single
/// child is built and wrapped in a `body` element; any other shape at
/// the document level is built as the item it is.
pub open spec fn spec_build(t: TreeV, limit: int) -> Result<NodeV, BuildErrorV> {
    match t {
        TreeV::Document(root) => match build_spec(*root, 1, limit) {
            Ok(n) => Ok(
                NodeV {
                    params: NodeTypeV::Element(
                        ElementParamsV { tag_name: "body"@, attrs: Map::empty() },
                    ),
                    children: ChildrenV::Node(Box::new(n)),
                },
            ),
            Err(e) => Err(e),
        },
        _ => build_spec(t, 1, limit),
    }
}

/// Build one parse-tree node.
fn build_node(t: ParseTree, depth: usize, limit: usize) -> (r: Result<Node, BuildError>)
    requires
        1 <= depth,
        depth as int <= limit as int + 1,
        limit < usize::MAX,
    ensures
        node_res_view(r) == build_spec(t@, depth as int, limit as int),
    decreases tree_size(t), 0int,
{
    match t {
        ParseTree::Document(_) => Err(BuildError::InternalInconsistency),
        ParseTree::Element { tag_name, attr, children } => {
            if depth > limit {
                return Err(BuildError::NestingTooDeep { limit });
            }
            let mut attrs = AttrMap::new();
            match attr {
                Some((k, v)) => {
                    attrs.insert(k, v);
                },
                None => {},
            }
            match build_nodes(children, depth + 1, limit) {
                Ok(ns) => Ok(elem(tag_name, attrs, Children::Nodes(ns))),
                Err(e) => Err(e),
            }
        },
        ParseTree::Heading { level_digit, text } => {
            if !is_digit_exec(level_digit) {
                return Err(BuildError::InternalInconsistency);
            }
            let code: u32 = level_digit as u32;
            let level: u8 = (code - 48) as u8;
            if 1 <= level && level <= 6 {
                Ok(heading(level, text))
            } else {
                Err(BuildError::InvalidHeadingLevel { level })
            }
        },
        ParseTree::Comment { text } => Ok(comment(text)),
        ParseTree::Description { text } => Ok(desc(text)),
        ParseTree::Text { text: raw } => {
            let n = raw.as_str().unicode_len();
            let trimmed = trim_substr(raw.as_str(), n, 0, n);
            proof {
                assert(raw@.subrange(0, raw@.len() as int) =~= raw@);
            }
            Ok(text(trimmed))
        },
    }
}

/// Size of a parse tree, counting every node.
pub open spec fn tree_size(t: ParseTree) -> nat
    decreases t,
{
    match t {
        ParseTree::Document(b) => 1 + tree_size(*b),
        ParseTree::Element { tag_name, attr, children } => 1 + trees_size(children@),
        _ => 1,
    }
}

pub open spec fn trees_size(ts: Seq<ParseTree>) -> nat
    decreases ts,
{
    if ts.len() == 0 {
        0
    } else {
        tree_size(ts[0]) + trees_size(ts.drop_first())
    }
}

proof fn lemma_tree_size_pos(t: ParseTree)
    ensures
        tree_size(t) >= 1,
{
    match t {
        ParseTree::Document(_) => {},
        ParseTree::Element { .. } => {},
        _ => {},
    }
}

/// Build a vector of parse-tree nodes in source order.
fn build_nodes(ts: Vec<ParseTree>, depth: usize, limit: usize) -> (r: Result<Vec<Node>, BuildError>)
    requires
        1 <= depth,
        depth as int <= limit as int + 1,
        limit < usize::MAX,
    ensures
        nodes_res_view(r) == build_items(trees_view(ts@), depth as int, limit as int),
    decreases trees_size(ts@), 1int,
{
    let mut rest = ts;
    let ghost orig = rest@;
    if rest.len() == 0 {
        let out: Vec<Node> = Vec::new();
        proof {
            lemma_nodes_view(out@);
        }
        return Ok(out);
    }
    let t0 = rest.remove(0);
    proof {
        assert(orig.remove(0) =~= orig.drop_first());
        lemma_trees_view(orig);
        lemma_trees_view(rest@);
        assert(trees_view(orig)[0] == tree_view(t0));
        assert(trees_view(orig).drop_first() =~= trees_view(rest@));
        lemma_tree_size_pos(t0);
    }
    match build_node(t0, depth, limit) {
        Err(e) => Err(e),
        Ok(n0) => {
            match build_nodes(rest, depth, limit) {
                Err(e) => Err(e),
                Ok(more) => {
                    let ghost before = more@;
                    let mut out = more;
                    out.insert(0, n0);
                    proof {
                        lemma_nodes_view(before);
                        lemma_nodes_view(out@);
                        assert(out@ =~= seq![n0].add(before));
                        assert(nodes_view(out@) =~= seq![n0@] + nodes_view(before));
                    }
                    Ok(out)
                },
            }
        },
    }
}

/// Turn a concrete parse tree into the typed node tree, with the given
/// bound on element nesting depth. A document's single element is
/// wrapped in a `body` element.
pub fn parse_nodes_with_limit(pair: ParseTree, limit: usize) -> (r: Result<Node, BuildError>)
    requires
        limit < usize::MAX,
    ensures
        node_res_view(r) == spec_build(pair@, limit as int),
{
    match pair {
        ParseTree::Document(root) => {
            let root = *root;
            match build_node(root, 1, limit) {
                Ok(n) => Ok(
                    elem(String::from_str("body"), AttrMap::new(), Children::Node(Box::new(n))),
                ),
                Err(e) => Err(e),
            }
        },
        other => build_node(other, 1, limit),
    }
}

/// Turn a concrete parse tree into the typed node tree, with the
/// default nesting bound.
pub fn parse_nodes(pair: ParseTree) -> (r: Result<Node, BuildError>)
    ensures
        node_res_view(r) == spec_build(pair@, DEFAULT_MAX_DEPTH as int),
{
    parse_nodes_with_limit(pair, DEFAULT_MAX_DEPTH)
}

} // verus!
