//! The typed node model: the `Node` sum type, its variants, and the
//! attribute map, together with the construction API.
//!
//! Attribute policy: a generic attribute written twice keeps the value
//! written last; the reserved name `class` instead accumulates values,
//! separated by a single space.

use vstd::prelude::*;

verus! {

/// Spec view of an attribute map: attribute name to attribute value.
pub open spec fn pairs_to_map(ps: Seq<(String, String)>) -> Map<Seq<char>, Seq<char>>
    decreases ps.len(),
{
    if ps.len() == 0 {
        Map::empty()
    } else {
        pairs_to_map(ps.drop_last()).insert(ps.last().0@, ps.last().1@)
    }
}

/// Keys are pairwise distinct.
pub open spec fn distinct_keys(ps: Seq<(String, String)>) -> bool {
    forall|i: int, j: int| 0 <= i < j < ps.len() ==> ps[i].0@ != ps[j].0@
}

/// Attribute map: names are unique and case-sensitive; insertion order
/// carries no meaning.
#[derive(Debug, PartialEq)]
pub struct AttrMap {
    pairs: Vec<(String, String)>,
}

impl View for AttrMap {
    type V = Map<Seq<char>, Seq<char>>;

    closed spec fn view(&self) -> Map<Seq<char>, Seq<char>> {
        pairs_to_map(self.pairs@)
    }
}

proof fn lemma_map_domain(ps: Seq<(String, String)>)
    ensures
        forall|k: Seq<char>|
            pairs_to_map(ps).contains_key(k) <==> (exists|i: int|
                0 <= i < ps.len() && ps[i].0@ == k),
    decreases ps.len(),
{
    if ps.len() > 0 {
        let dl = ps.drop_last();
        lemma_map_domain(dl);
        assert forall|k: Seq<char>|
            pairs_to_map(ps).contains_key(k) implies (exists|i: int|
            0 <= i < ps.len() && ps[i].0@ == k) by {
            if ps.last().0@ == k {
                assert(ps[ps.len() - 1].0@ == k);
            } else {
                assert(pairs_to_map(dl).contains_key(k));
                let i = choose|i: int| 0 <= i < dl.len() && dl[i].0@ == k;
                assert(dl[i] == ps[i]);
                assert(ps[i].0@ == k);
            }
        }
        assert forall|k: Seq<char>|
            (exists|i: int| 0 <= i < ps.len() && ps[i].0@ == k) implies pairs_to_map(
            ps,
        ).contains_key(k) by {
            let i = choose|i: int| 0 <= i < ps.len() && ps[i].0@ == k;
            if i < ps.len() - 1 {
                assert(dl[i] == ps[i]);
                assert(dl[i].0@ == k);
                assert(pairs_to_map(dl).contains_key(k));
            }
        }
    }
}

proof fn lemma_map_value(ps: Seq<(String, String)>, i: int)
    requires
        distinct_keys(ps),
        0 <= i < ps.len(),
    ensures
        pairs_to_map(ps).contains_key(ps[i].0@),
        pairs_to_map(ps)[ps[i].0@] == ps[i].1@,
    decreases ps.len(),
{
    if i == ps.len() - 1 {
    } else {
        assert(distinct_keys(ps.drop_last()));
        assert(ps.drop_last()[i] == ps[i]);
        lemma_map_value(ps.drop_last(), i);
        assert(ps[ps.len() - 1].0@ != ps[i].0@);
    }
}

impl AttrMap {
    /// The stored pairs never repeat a name.
    #[verifier::type_invariant]
    closed spec fn type_inv(self) -> bool {
        distinct_keys(self.pairs@)
    }

    /// An empty attribute map.
    pub fn new() -> (r: AttrMap)
        ensures
            r@ == Map::<Seq<char>, Seq<char>>::empty(),
    {
        AttrMap { pairs: Vec::new() }
    }

    /// Number of attributes.
    pub fn len(&self) -> (r: usize)
        ensures
            r == self@.dom().len(),
    {
        proof {
            use_type_invariant(&*self);
            lemma_len_eq(self.pairs@);
        }
        self.pairs.len()
    }

    /// Look an attribute up by name.
    pub fn get(&self, name: &str) -> (r: Option<&String>)
        ensures
            match r {
                Some(v) => self@.contains_key(name@) && v@ == self@[name@],
                None => !self@.contains_key(name@),
            },
    {
        proof {
            use_type_invariant(&*self);
        }
        let key = String::from_str(name);
        let mut i: usize = 0;
        while i < self.pairs.len()
            invariant
                0 <= i <= self.pairs@.len(),
                key@ == name@,
                distinct_keys(self.pairs@),
                forall|j: int| 0 <= j < i ==> self.pairs@[j].0@ != name@,
            decreases self.pairs@.len() - i,
        {
            if self.pairs[i].0 == key {
                proof {
                    lemma_map_value(self.pairs@, i as int);
                }
                return Some(&self.pairs[i].1);
            }
            i = i + 1;
        }
        proof {
            lemma_map_domain(self.pairs@);
        }
        None
    }

    /// Set an attribute: on a duplicate name the last written value wins.
    pub fn insert(&mut self, name: String, value: String)
        ensures
            final(self)@ == old(self)@.insert(name@, value@),
    {
        proof {
            use_type_invariant(&*self);
        }
        let ghost orig = self.pairs@;
        let mut ps: Vec<(String, String)> = Vec::new();
        std::mem::swap(&mut ps, &mut self.pairs);
        let n = ps.len();
        let mut i: usize = 0;
        while i < n
            invariant
                0 <= i <= n,
                n == ps@.len(),
                ps@ == orig,
                orig == old(self).pairs@,
                distinct_keys(orig),
                forall|j: int| 0 <= j < i ==> ps@[j].0@ != name@,
            decreases n - i,
        {
            if ps[i].0 == name {
                let ghost before = ps@;
                ps.set(i, (name, value));
                proof {
                    assert(distinct_keys(ps@));
                    lemma_update(before, i as int, ps@[i as int]);
                }
                self.pairs = ps;
                return ;
            }
            i = i + 1;
        }
        let ghost before = ps@;
        ps.push((name, value));
        proof {
            assert(ps@.drop_last() =~= before);
            assert(distinct_keys(ps@));
        }
        self.pairs = ps;
    }
}

/// Updating the entry that holds a key is, on the map, inserting over it.
proof fn lemma_update(ps: Seq<(String, String)>, i: int, p: (String, String))
    requires
        distinct_keys(ps),
        0 <= i < ps.len(),
        p.0@ == ps[i].0@,
    ensures
        pairs_to_map(ps.update(i, p)) =~= pairs_to_map(ps).insert(p.0@, p.1@),
    decreases ps.len(),
{
    let up = ps.update(i, p);
    if i == ps.len() - 1 {
        assert(up.drop_last() =~= ps.drop_last());
        assert(up.last() == p);
        assert(pairs_to_map(ps.drop_last()).insert(ps.last().0@, ps.last().1@).insert(p.0@, p.1@)
            =~= pairs_to_map(ps.drop_last()).insert(p.0@, p.1@));
    } else {
        assert(distinct_keys(ps.drop_last()));
        assert(up.drop_last() =~= ps.drop_last().update(i, p));
        lemma_update(ps.drop_last(), i, p);
        assert(up.last() == ps.last());
        assert(pairs_to_map(ps.drop_last()).insert(p.0@, p.1@).insert(ps.last().0@, ps.last().1@)
            =~= pairs_to_map(ps.drop_last()).insert(ps.last().0@, ps.last().1@).insert(
            p.0@,
            p.1@,
        ));
    }
}

/// With distinct keys the map has exactly one entry per stored pair.
proof fn lemma_len_eq(ps: Seq<(String, String)>)
    requires
        distinct_keys(ps),
    ensures
        pairs_to_map(ps).dom().finite(),
        pairs_to_map(ps).dom().len() == ps.len(),
    decreases ps.len(),
{
    if ps.len() > 0 {
        assert(distinct_keys(ps.drop_last()));
        lemma_len_eq(ps.drop_last());
        lemma_map_domain(ps.drop_last());
        assert(!pairs_to_map(ps.drop_last()).contains_key(ps.last().0@));
        assert(pairs_to_map(ps).dom() =~= pairs_to_map(ps.drop_last()).dom().insert(
            ps.last().0@,
        ));
        vstd::set::axiom_set_insert_len(pairs_to_map(ps.drop_last()).dom(), ps.last().0@);
    }
}

/// What setting the `class` attribute means: a first value is stored as
/// given; a further value is appended after a single space.
pub open spec fn spec_add_class(m: Map<Seq<char>, Seq<char>>, class: Seq<char>) -> Map<
    Seq<char>,
    Seq<char>,
> {
    if m.contains_key("class"@) {
        m.insert("class"@, m["class"@] + " "@ + class)
    } else {
        m.insert("class"@, class)
    }
}

/// Record a `class` value, accumulating rather than overwriting.
pub fn add_class(attrs: &mut AttrMap, class: &str)
    ensures
        final(attrs)@ == spec_add_class(old(attrs)@, class@),
{
    let existing: Option<String> = match attrs.get("class") {
        Some(v) => Some(v.clone()),
        None => None,
    };
    match existing {
        Some(cur) => {
            let appended = cur.concat(" ").concat(class);
            attrs.insert(String::from_str("class"), appended);
        },
        None => {
            attrs.insert(String::from_str("class"), String::from_str(class));
        },
    }
}

/// What a node holds besides its children.
#[derive(Debug, PartialEq)]
pub enum NodeType {
    Comment,
    Description,
    Text,
    Element(ElementParams),
    Heading(HeadingParams),
}

/// Payload of an element node.
#[derive(Debug, PartialEq)]
pub struct ElementParams {
    pub tag_name: String,
    pub attrs: AttrMap,
}

/// Payload of a heading node.
#[derive(Debug, PartialEq)]
pub struct HeadingParams {
    pub level: u8,
}

/// The children a node carries.
#[derive(Debug, PartialEq)]
pub enum Children {
    Text(String),
    Node(Box<Node>),
    Nodes(Vec<Node>),
    Empty,
}

/// A node of the abstract syntax tree.
#[derive(Debug, PartialEq)]
pub struct Node {
    pub params: NodeType,
    pub children: Children,
}

/// Spec views of the node model.
pub enum NodeTypeV {
    Comment,
    Description,
    Text,
    Element(ElementParamsV),
    Heading(HeadingParamsV),
}

pub struct ElementParamsV {
    pub tag_name: Seq<char>,
    pub attrs: Map<Seq<char>, Seq<char>>,
}

pub struct HeadingParamsV {
    pub level: u8,
}

pub enum ChildrenV {
    Text(Seq<char>),
    Node(Box<NodeV>),
    Nodes(Seq<NodeV>),
    Empty,
}

pub struct NodeV {
    pub params: NodeTypeV,
    pub children: ChildrenV,
}

pub open spec fn node_type_view(t: NodeType) -> NodeTypeV {
    match t {
        NodeType::Comment => NodeTypeV::Comment,
        NodeType::Description => NodeTypeV::Description,
        NodeType::Text => NodeTypeV::Text,
        NodeType::Element(p) => NodeTypeV::Element(
            ElementParamsV { tag_name: p.tag_name@, attrs: p.attrs@ },
        ),
        NodeType::Heading(p) => NodeTypeV::Heading(HeadingParamsV { level: p.level }),
    }
}

pub open spec fn node_view(n: Node) -> NodeV
    decreases n,
{
    NodeV { params: node_type_view(n.params), children: children_view(n.children) }
}

pub open spec fn children_view(c: Children) -> ChildrenV
    decreases c,
{
    match c {
        Children::Text(s) => ChildrenV::Text(s@),
        Children::Node(b) => ChildrenV::Node(Box::new(node_view(*b))),
        Children::Nodes(v) => ChildrenV::Nodes(nodes_view(v@)),
        Children::Empty => ChildrenV::Empty,
    }
}

/// View of a sequence of nodes, element by element.
pub open spec fn nodes_view(ns: Seq<Node>) -> Seq<NodeV>
    decreases ns,
{
    if ns.len() == 0 {
        Seq::empty()
    } else {
        seq![node_view(ns[0])] + nodes_view(ns.drop_first())
    }
}

pub proof fn lemma_nodes_view(ns: Seq<Node>)
    ensures
        nodes_view(ns).len() == ns.len(),
        forall|i: int| 0 <= i < ns.len() ==> nodes_view(ns)[i] == node_view(ns[i]),
    decreases ns.len(),
{
    if ns.len() > 0 {
        lemma_nodes_view(ns.drop_first());
    }
}

impl View for Node {
    type V = NodeV;

    open spec fn view(&self) -> NodeV {
        node_view(*self)
    }
}

impl View for Children {
    type V = ChildrenV;

    open spec fn view(&self) -> ChildrenV {
        children_view(*self)
    }
}

/// A comment node: the text is kept verbatim, line breaks included.
pub fn comment(data: String) -> (r: Node)
    ensures
        r@ == (NodeV { params: NodeTypeV::Comment, children: ChildrenV::Text(data@) }),
{
    Node { children: Children::Text(data), params: NodeType::Comment }
}

/// An element node with a tag name, attributes and children.
pub fn elem(tag_name: String, attrs: AttrMap, children: Children) -> (r: Node)
    ensures
        r@ == (NodeV {
            params: NodeTypeV::Element(ElementParamsV { tag_name: tag_name@, attrs: attrs@ }),
            children: children@,
        }),
{
    Node { children, params: NodeType::Element(ElementParams { tag_name, attrs }) }
}

/// A description node.
pub fn desc(content: String) -> (r: Node)
    ensures
        r@ == (NodeV { params: NodeTypeV::Description, children: ChildrenV::Text(content@) }),
{
    Node { children: Children::Text(content), params: NodeType::Description }
}

/// A text node.
pub fn text(content: String) -> (r: Node)
    ensures
        r@ == (NodeV { params: NodeTypeV::Text, children: ChildrenV::Text(content@) }),
{
    Node { children: Children::Text(content), params: NodeType::Text }
}

/// A heading node of the given level with its inline text.
pub fn heading(level: u8, content: String) -> (r: Node)
    ensures
        r@ == (NodeV {
            params: NodeTypeV::Heading(HeadingParamsV { level }),
            children: ChildrenV::Text(content@),
        }),
{
    Node { children: Children::Text(content), params: NodeType::Heading(HeadingParams { level }) }
}

} // verus!
