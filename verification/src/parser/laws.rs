//! Laws the library obeys, stated over the same spec functions the
//! public contracts use and proved once and for all.

use vstd::prelude::*;

use crate::parser::ast::{spec_add_class, ChildrenV, NodeTypeV, NodeV};
use crate::parser::builder::{build_items, build_spec, spec_build};
use crate::parser::grammar::spec_parse_document;
use crate::parser::scan::{is_ws, lemma_skip_ws, lemma_ws_start_back, skip_ws, trim, ws_start_back};
use crate::parser::tree::TreeV;

verus! {

/// Parsing and building are pure functions of the input text and the
/// configured bound: two runs over the same input yield the same parse
/// tree or the same error, and the same node tree or the same error.
/// `parse_html` returns exactly `spec_parse_document(input@, ..)` and
/// `parse_nodes` exactly `spec_build(tree@, ..)`, so two calls on equal
/// inputs return equal values.
pub proof fn lemma_determinism(a: Seq<char>, b: Seq<char>, limit: int)
    requires
        a == b,
    ensures
        spec_parse_document(a, limit) == spec_parse_document(b, limit),
        (match (spec_parse_document(a, limit), spec_parse_document(b, limit)) {
            (Ok(t1), Ok(t2)) => spec_build(t1, limit) == spec_build(t2, limit),
            _ => true,
        }),
{
}

/// Writing `class` a second time accumulates: the map then holds the
/// first value, a single space, and the second value.
pub proof fn lemma_class_accumulates(m: Map<Seq<char>, Seq<char>>, v1: Seq<char>, v2: Seq<char>)
    requires
        !m.contains_key("class"@),
    ensures
        spec_add_class(spec_add_class(m, v1), v2).contains_key("class"@),
        spec_add_class(spec_add_class(m, v1), v2)["class"@] == v1 + " "@ + v2,
{
}

/// Writing any attribute twice through the generic setter keeps only
/// the value written last.
pub proof fn lemma_attr_overwrite(
    m: Map<Seq<char>, Seq<char>>,
    k: Seq<char>,
    v1: Seq<char>,
    v2: Seq<char>,
)
    ensures
        m.insert(k, v1).insert(k, v2) == m.insert(k, v2),
        m.insert(k, v1).insert(k, v2)[k] == v2,
{
    assert(m.insert(k, v1).insert(k, v2) =~= m.insert(k, v2));
}

/// A node tree is well formed: heading levels lie in 1 through 6,
/// an element's children are a node list (or the single wrapped node of
/// the document body), every leaf carries text, and the text of a text
/// node carries no surrounding whitespace.
pub open spec fn wf_node(n: NodeV) -> bool
    decreases n,
{
    match n.params {
        NodeTypeV::Comment => n.children matches ChildrenV::Text(_),
        NodeTypeV::Description => n.children matches ChildrenV::Text(_),
        NodeTypeV::Text => match n.children {
            ChildrenV::Text(t) => t == trim(t),
            _ => false,
        },
        NodeTypeV::Heading(h) => 1 <= h.level <= 6 && (n.children matches ChildrenV::Text(_)),
        NodeTypeV::Element(_) => match n.children {
            ChildrenV::Nodes(ns) => wf_nodes(ns),
            ChildrenV::Node(b) => wf_node(*b),
            _ => false,
        },
    }
}

pub open spec fn wf_nodes(ns: Seq<NodeV>) -> bool
    decreases ns,
{
    if ns.len() == 0 {
        true
    } else {
        wf_node(ns[0]) && wf_nodes(ns.drop_first())
    }
}

/// A trimmed text neither starts nor ends with whitespace.
proof fn lemma_trim_props(s: Seq<char>)
    ensures
        trim(s).len() == 0 || (!is_ws(trim(s)[0]) && !is_ws(trim(s).last())),
{
    lemma_skip_ws(s, 0);
    lemma_ws_start_back(s, s.len() as int);
    if skip_ws(s, 0) < s.len() {
        let a = skip_ws(s, 0);
        let b = ws_start_back(s, s.len() as int);
        crate::parser::scan::lemma_trim_bounds(s);
        assert(trim(s)[0] == s[a]);
        assert(trim(s).last() == s[b - 1]);
        if is_ws(s[b - 1]) {
            assert(b > 0 && !is_ws(s[b - 1]));
        }
    }
}

/// Trimming is idempotent.
pub proof fn lemma_trim_idempotent(s: Seq<char>)
    ensures
        trim(trim(s)) == trim(s),
{
    lemma_trim_props(s);
    let t = trim(s);
    if t.len() == 0 {
        assert(skip_ws(t, 0) == 0);
        assert(trim(t) =~= t);
    } else {
        assert(skip_ws(t, 0) == 0);
        assert(ws_start_back(t, t.len() as int) == t.len() as int);
        assert(trim(t) =~= t);
    }
}

/// Everything the builder accepts comes out well formed.
pub proof fn lemma_build_wf(t: TreeV, depth: int, limit: int)
    ensures
        (match build_spec(t, depth, limit) {
            Ok(n) => wf_node(n),
            Err(_) => true,
        }),
    decreases t,
{
    match t {
        TreeV::Document(_) => {},
        TreeV::Element { children, .. } => {
            lemma_build_items_wf(children, depth + 1, limit);
        },
        TreeV::Heading { .. } => {},
        TreeV::Comment { .. } => {},
        TreeV::Description { .. } => {},
        TreeV::Text { text } => {
            lemma_trim_idempotent(text);
        },
    }
}

pub proof fn lemma_build_items_wf(ts: Seq<TreeV>, depth: int, limit: int)
    ensures
        (match build_items(ts, depth, limit) {
            Ok(ns) => wf_nodes(ns),
            Err(_) => true,
        }),
    decreases ts,
{
    if ts.len() > 0 {
        lemma_build_wf(ts[0], depth, limit);
        lemma_build_items_wf(ts.drop_first(), depth, limit);
        match build_spec(ts[0], depth, limit) {
            Ok(n0) => {
                match build_items(ts.drop_first(), depth, limit) {
                    Ok(rest) => {
                        let all = seq![n0] + rest;
                        assert(all[0] == n0);
                        assert(all.drop_first() =~= rest);
                    },
                    Err(_) => {},
                }
            },
            Err(_) => {},
        }
    }
}

/// One direction of the serializer round trip, for a document whose
/// body is a single text run: such a node renders back to grammar text
/// as its own content, and parsing and building that text returns the
/// very same node, wrapped in the document body.
pub proof fn lemma_text_document_round_trip(t: Seq<char>, limit: int)
    requires
        t.len() > 0,
        t == trim(t),
        forall|k: int| 0 <= k < t.len() ==> t[k] != '<',
    ensures
        spec_parse_document(t, limit) == Ok::<TreeV, crate::parser::errors::ParseErrorV>(
            TreeV::Document(Box::new(TreeV::Text { text: t })),
        ),
        spec_build(TreeV::Document(Box::new(TreeV::Text { text: t })), limit) == Ok::<
            NodeV,
            crate::parser::errors::BuildErrorV,
        >(
            NodeV {
                params: NodeTypeV::Element(
                    crate::parser::ast::ElementParamsV { tag_name: "body"@, attrs: Map::empty() },
                ),
                children: ChildrenV::Node(
                    Box::new(NodeV { params: NodeTypeV::Text, children: ChildrenV::Text(t) }),
                ),
            },
        ),
{
    lemma_trim_props(t);
    assert(!is_ws(t[0]));
    assert(skip_ws(t, 0) == 0);
    crate::parser::scan::lemma_text_end_at(t, 0, t.len() as int);
    assert(t.subrange(0, t.len() as int) =~= t);
    assert(crate::parser::grammar::spec_parse_item(t, 0, 0, limit) == Ok::<
        (TreeV, int),
        crate::parser::errors::ParseErrorV,
    >((TreeV::Text { text: t }, t.len() as int)));
    assert(skip_ws(t, t.len() as int) == t.len() as int);
}

/// One direction of the serializer round trip, for a document whose
/// body is a single heading: `<h` digit `>` text `</h` digit `>`
/// parses and builds back to the very heading node it renders.
pub proof fn lemma_heading_document_round_trip(d: char, t: Seq<char>, limit: int)
    requires
        '1' <= d && d <= '6',
        forall|k: int| 0 <= k < t.len() ==> t[k] != '<',
    ensures
        spec_parse_document(seq!['<', 'h', d, '>'] + t + seq!['<', '/', 'h', d, '>'], limit)
            == Ok::<TreeV, crate::parser::errors::ParseErrorV>(
            TreeV::Document(Box::new(TreeV::Heading { level_digit: d, text: t })),
        ),
        spec_build(TreeV::Document(Box::new(TreeV::Heading { level_digit: d, text: t })), limit)
            == Ok::<NodeV, crate::parser::errors::BuildErrorV>(
            NodeV {
                params: NodeTypeV::Element(
                    crate::parser::ast::ElementParamsV { tag_name: "body"@, attrs: Map::empty() },
                ),
                children: ChildrenV::Node(
                    Box::new(
                        NodeV {
                            params: NodeTypeV::Heading(
                                crate::parser::ast::HeadingParamsV {
                                    level: (d as int - '0' as int) as u8,
                                },
                            ),
                            children: ChildrenV::Text(t),
                        },
                    ),
                ),
            },
        ),
{
    let s = seq!['<', 'h', d, '>'] + t + seq!['<', '/', 'h', d, '>'];
    let m = t.len() as int;
    assert(s.len() == m + 9);
    assert(s[0] == '<' && s[1] == 'h' && s[2] == d && s[3] == '>');
    assert forall|k: int| 4 <= k < 4 + m implies s[k] != '<' by {
        assert(s[k] == t[k - 4]);
    }
    assert(s[4 + m] == '<' && s[5 + m] == '/' && s[6 + m] == 'h' && s[7 + m] == d && s[8 + m]
        == '>');
    assert(skip_ws(s, 0) == 0);
    reveal_strlit("<!--");
    reveal_strlit("<desc>");
    assert(!crate::parser::scan::match_at(s, 0, "<!--"@)) by {
        assert(s[0int + 1] != "<!--"@[1]);
    }
    assert(!crate::parser::scan::match_at(s, 0, "<desc>"@)) by {
        assert(s[0int + 1] != "<desc>"@[1]);
    }
    crate::parser::scan::lemma_text_end_at(s, 4, 4 + m);
    assert(s.subrange(4, 4 + m) =~= t);
    assert(crate::parser::grammar::spec_parse_item(s, 0, 0, limit) == Ok::<
        (TreeV, int),
        crate::parser::errors::ParseErrorV,
    >((TreeV::Heading { level_digit: d, text: t }, m + 9)));
    assert(skip_ws(s, m + 9) == m + 9);
}

/// One direction of the serializer round trip, for a document whose
/// body is a single childless element: `<` tag `>` `</` tag `>` parses
/// and builds back to the empty element it renders. The tag may not be
/// one of the spellings the grammar's earlier alternatives claim
/// (`p`, `desc`, or `h` followed by one digit).
pub proof fn lemma_empty_element_round_trip(tag: Seq<char>, limit: int)
    requires
        limit >= 1,
        tag.len() > 0,
        crate::parser::scan::is_name_start(tag[0]),
        forall|k: int| 0 <= k < tag.len() ==> crate::parser::scan::is_name_char(tag[k]),
        tag != "p"@,
        tag != "desc"@,
        !(tag.len() == 2 && tag[0] == 'h' && crate::parser::scan::is_digit(tag[1])),
    ensures
        spec_parse_document(seq!['<'] + tag + seq!['>', '<', '/'] + tag + seq!['>'], limit)
            == Ok::<TreeV, crate::parser::errors::ParseErrorV>(
            TreeV::Document(
                Box::new(TreeV::Element { tag_name: tag, attr: None, children: Seq::empty() }),
            ),
        ),
        spec_build(
            TreeV::Document(
                Box::new(TreeV::Element { tag_name: tag, attr: None, children: Seq::empty() }),
            ),
            limit,
        ) == Ok::<NodeV, crate::parser::errors::BuildErrorV>(
            NodeV {
                params: NodeTypeV::Element(
                    crate::parser::ast::ElementParamsV { tag_name: "body"@, attrs: Map::empty() },
                ),
                children: ChildrenV::Node(
                    Box::new(
                        NodeV {
                            params: NodeTypeV::Element(
                                crate::parser::ast::ElementParamsV {
                                    tag_name: tag,
                                    attrs: Map::empty(),
                                },
                            ),
                            children: ChildrenV::Nodes(Seq::empty()),
                        },
                    ),
                ),
            },
        ),
{
    let tl = tag.len() as int;
    let s = seq!['<'] + tag + seq!['>', '<', '/'] + tag + seq!['>'];
    assert(s.len() == 2 * tl + 5);
    assert(s[0] == '<');
    assert forall|k: int| 1 <= k < 1 + tl implies s[k] == tag[k - 1] by {}
    assert(s[1 + tl] == '>' && s[2 + tl] == '<' && s[3 + tl] == '/');
    assert forall|k: int| 4 + tl <= k < 4 + 2 * tl implies s[k] == tag[k - 4 - tl] by {}
    assert(s[4 + 2 * tl] == '>');
    reveal_strlit("<!--");
    reveal_strlit("<desc>");
    reveal_strlit("<p>");
    reveal_strlit("p");
    reveal_strlit("desc");
    assert(skip_ws(s, 0) == 0);
    // None of the earlier ordered-choice alternatives matches.
    assert(!crate::parser::scan::match_at(s, 0, "<!--"@)) by {
        assert(s[1] == tag[0] && crate::parser::scan::is_name_char(tag[0]));
        assert(s[0int + 1] != "<!--"@[1]);
    }
    assert(!crate::parser::scan::match_at(s, 0, "<desc>"@)) by {
        if crate::parser::scan::match_at(s, 0, "<desc>"@) {
            assert(s[0int + 5] == "<desc>"@[5]);
            assert(s[5] == '>');
            if tl > 4 {
                assert(s[5] == tag[4]);
            } else if tl == 4 {
                assert(tag =~= "desc"@) by {
                    assert forall|q: int| 0 <= q < 4 implies tag[q] == "desc"@[q] by {
                        assert(s[0int + (q + 1)] == "<desc>"@[q + 1]);
                        assert(s[q + 1] == tag[q]);
                    }
                }
            } else {
                assert(s[0int + (1 + tl)] == "<desc>"@[1 + tl]);
                assert(crate::parser::scan::is_name_char("<desc>"@[1 + tl]));
            }
        }
    }
    assert(!crate::parser::scan::match_at(s, 0, "<p>"@)) by {
        if crate::parser::scan::match_at(s, 0, "<p>"@) {
            assert(s[0int + 2] == "<p>"@[2]);
            assert(s[2] == '>');
            if tl > 1 {
                assert(s[2] == tag[1]);
            } else {
                assert(s[0int + 1] == "<p>"@[1]);
                assert(tag[0] == 'p');
                assert(tag =~= "p"@);
            }
        }
    }
    // Not a heading opening either.
    assert(!(0 + 3 < s.len() && s[1] == 'h' && crate::parser::scan::is_digit(s[2]) && s[3] == '>'))
        by {
        if 0 + 3 < s.len() && s[1] == 'h' && crate::parser::scan::is_digit(s[2]) && s[3] == '>' {
            if tl == 1 {
                assert(s[2] == '>');
            } else if tl == 2 {
                assert(tag[0] == 'h' && crate::parser::scan::is_digit(tag[1]));
            } else {
                assert(s[3] == tag[2]);
            }
        }
    }
    // The element rule itself.
    crate::parser::scan::lemma_name_end_at(s, 1, 1 + tl);
    assert(s.subrange(1, 1 + tl) =~= tag);
    assert(skip_ws(s, 1 + tl) == 1 + tl);
    assert(crate::parser::grammar::spec_parse_attr(s, 1 + tl) == Ok::<
        (Option<(Seq<char>, Seq<char>)>, int),
        crate::parser::errors::ParseErrorV,
    >((None, 1 + tl)));
    assert(skip_ws(s, 2 + tl) == 2 + tl);
    assert(crate::parser::grammar::spec_parse_items(s, 2 + tl, 1, limit) == Ok::<
        (Seq<TreeV>, int),
        crate::parser::errors::ParseErrorV,
    >((Seq::empty(), 2 + tl)));
    crate::parser::scan::lemma_name_end_at(s, 4 + tl, 4 + 2 * tl);
    assert(s.subrange(4 + tl, 4 + 2 * tl) =~= tag);
    assert(crate::parser::grammar::spec_parse_element(s, 0, 1, limit) == Ok::<
        (TreeV, int),
        crate::parser::errors::ParseErrorV,
    >((TreeV::Element { tag_name: tag, attr: None, children: Seq::empty() }, 2 * tl + 5)));
    assert(skip_ws(s, 2 * tl + 5) == 2 * tl + 5);
}

/// One direction of the serializer round trip, for a document that is
/// a single one-line comment: `<!-- ` text ` -->` parses and builds
/// back to the comment node whose text it renders, provided the text
/// carries no line break, no surrounding whitespace, and no comment
/// terminator of its own.
pub proof fn lemma_comment_document_round_trip(t: Seq<char>, limit: int)
    requires
        t.len() > 0,
        t == trim(t),
        forall|k: int| 0 <= k < t.len() ==> t[k] != '\n',
        forall|k: int| !crate::parser::scan::match_at(t, k, "-->"@),
    ensures
        spec_parse_document(
            seq!['<', '!', '-', '-', ' '] + t + seq![' ', '-', '-', '>'],
            limit,
        ) == Ok::<TreeV, crate::parser::errors::ParseErrorV>(
            TreeV::Document(Box::new(TreeV::Comment { text: t })),
        ),
        spec_build(TreeV::Document(Box::new(TreeV::Comment { text: t })), limit) == Ok::<
            NodeV,
            crate::parser::errors::BuildErrorV,
        >(
            NodeV {
                params: NodeTypeV::Element(
                    crate::parser::ast::ElementParamsV { tag_name: "body"@, attrs: Map::empty() },
                ),
                children: ChildrenV::Node(
                    Box::new(NodeV { params: NodeTypeV::Comment, children: ChildrenV::Text(t) }),
                ),
            },
        ),
{
    let tl = t.len() as int;
    let s = seq!['<', '!', '-', '-', ' '] + t + seq![' ', '-', '-', '>'];
    assert(s.len() == tl + 9);
    assert(s[0] == '<' && s[1] == '!' && s[2] == '-' && s[3] == '-' && s[4] == ' ');
    assert forall|k: int| 5 <= k < 5 + tl implies s[k] == t[k - 5] by {}
    assert(s[5 + tl] == ' ' && s[6 + tl] == '-' && s[7 + tl] == '-' && s[8 + tl] == '>');
    reveal_strlit("<!--");
    reveal_strlit("-->");
    assert(skip_ws(s, 0) == 0);
    assert(crate::parser::scan::match_at(s, 0, "<!--"@)) by {
        assert forall|k: int| 0 <= k < 4 implies s[k] == "<!--"@[k] by {}
    }
    // The first comment terminator sits right at the end.
    assert(crate::parser::scan::match_at(s, 6 + tl, "-->"@)) by {
        assert(s[6 + tl + 0] == "-->"@[0]);
        assert(s[6 + tl + 1] == "-->"@[1]);
        assert(s[6 + tl + 2] == "-->"@[2]);
    }
    assert forall|k: int| 4 <= k < 6 + tl implies !crate::parser::scan::match_at(s, k, "-->"@) by {
        if crate::parser::scan::match_at(s, k, "-->"@) {
            if k == 4 {
                assert(s[k + 0] == "-->"@[0]);
                assert(false);
            } else if k <= 2 + tl {
                assert(crate::parser::scan::match_at(t, k - 5, "-->"@)) by {
                    assert forall|q: int| 0 <= q < 3 implies t[k - 5 + q] == "-->"@[q] by {
                        assert(s[k + q] == "-->"@[q]);
                        assert(s[k + q] == t[k - 5 + q]);
                    }
                }
                assert(false);
            } else if k == 3 + tl {
                assert(s[k + 2] == "-->"@[2]);
                assert(s[5 + tl] == ' ');
                assert(false);
            } else if k == 4 + tl {
                assert(s[k + 1] == "-->"@[1]);
                assert(s[5 + tl] == ' ');
                assert(false);
            } else {
                assert(s[k + 0] == "-->"@[0]);
                assert(s[5 + tl] == ' ');
                assert(false);
            }
        }
    }
    crate::parser::scan::lemma_find_pat_at(s, 4, 6 + tl, "-->"@);
    // The captured span is the text with one space on either side.
    let raw = s.subrange(4, 6 + tl);
    assert(raw.len() == tl + 2);
    assert(raw[0] == ' ' && raw[tl + 1] == ' ');
    assert forall|k: int| 1 <= k < 1 + tl implies raw[k] == t[k - 1] by {}
    lemma_trim_props(t);
    crate::parser::scan::lemma_line_end_at(raw, 0, raw.len() as int);
    crate::parser::scan::lemma_skip_ws_at(raw, 0, 1);
    crate::parser::scan::lemma_ws_start_back_at(raw, tl + 1, tl + 2);
    assert(raw.subrange(1, tl + 1) =~= t);
    assert(crate::parser::scan::comment_text(raw) == t);
    assert(crate::parser::grammar::spec_parse_item(s, 0, 0, limit) == Ok::<
        (TreeV, int),
        crate::parser::errors::ParseErrorV,
    >((TreeV::Comment { text: t }, tl + 9)));
    assert(skip_ws(s, tl + 9) == tl + 9);
}

/// One direction of the serializer round trip, for a document that is
/// a single description block: `<desc>` text `</desc>` parses and
/// builds back to the description node whose text it renders, provided
/// the text carries no surrounding whitespace and no `<` of its own.
pub proof fn lemma_description_document_round_trip(t: Seq<char>, limit: int)
    requires
        t == trim(t),
        forall|k: int| 0 <= k < t.len() ==> t[k] != '<',
    ensures
        spec_parse_document(
            seq!['<', 'd', 'e', 's', 'c', '>'] + t + seq!['<', '/', 'd', 'e', 's', 'c', '>'],
            limit,
        ) == Ok::<TreeV, crate::parser::errors::ParseErrorV>(
            TreeV::Document(Box::new(TreeV::Description { text: t })),
        ),
        spec_build(TreeV::Document(Box::new(TreeV::Description { text: t })), limit) == Ok::<
            NodeV,
            crate::parser::errors::BuildErrorV,
        >(
            NodeV {
                params: NodeTypeV::Element(
                    crate::parser::ast::ElementParamsV { tag_name: "body"@, attrs: Map::empty() },
                ),
                children: ChildrenV::Node(
                    Box::new(
                        NodeV { params: NodeTypeV::Description, children: ChildrenV::Text(t) },
                    ),
                ),
            },
        ),
{
    let tl = t.len() as int;
    let s = seq!['<', 'd', 'e', 's', 'c', '>'] + t + seq!['<', '/', 'd', 'e', 's', 'c', '>'];
    assert(s.len() == tl + 13);
    assert(s[0] == '<' && s[1] == 'd' && s[2] == 'e' && s[3] == 's' && s[4] == 'c' && s[5] == '>');
    assert forall|k: int| 6 <= k < 6 + tl implies s[k] == t[k - 6] by {}
    assert(s[6 + tl] == '<' && s[7 + tl] == '/' && s[8 + tl] == 'd' && s[9 + tl] == 'e' && s[10
        + tl] == 's' && s[11 + tl] == 'c' && s[12 + tl] == '>');
    reveal_strlit("<!--");
    reveal_strlit("<desc>");
    reveal_strlit("</desc>");
    assert(skip_ws(s, 0) == 0);
    assert(!crate::parser::scan::match_at(s, 0, "<!--"@)) by {
        assert(s[0int + 1] != "<!--"@[1]);
    }
    assert(crate::parser::scan::match_at(s, 0, "<desc>"@)) by {
        assert forall|k: int| 0 <= k < 6 implies s[k] == "<desc>"@[k] by {}
    }
    assert(crate::parser::scan::match_at(s, 6 + tl, "</desc>"@)) by {
        assert forall|q: int| 0 <= q < 7 implies s[6 + tl + q] == "</desc>"@[q] by {}
    }
    assert forall|k: int| 6 <= k < 6 + tl implies !crate::parser::scan::match_at(s, k, "</desc>"@)
        by {
        if crate::parser::scan::match_at(s, k, "</desc>"@) {
            assert(s[k + 0] == "</desc>"@[0]);
            assert(s[k] == t[k - 6]);
            assert(false);
        }
    }
    crate::parser::scan::lemma_find_pat_at(s, 6, 6 + tl, "</desc>"@);
    assert(s.subrange(6, 6 + tl) =~= t);
    assert(crate::parser::grammar::spec_parse_item(s, 0, 0, limit) == Ok::<
        (TreeV, int),
        crate::parser::errors::ParseErrorV,
    >((TreeV::Description { text: t }, tl + 13)));
    assert(skip_ws(s, tl + 13) == tl + 13);
}

/// Every node tree `parse_nodes` returns is well formed: in particular
/// a heading's level is between 1 and 6, element children keep their
/// source order in a node list, and text nodes are trimmed.
pub proof fn lemma_built_tree_wf(t: TreeV, limit: int)
    ensures
        (match spec_build(t, limit) {
            Ok(n) => wf_node(n),
            Err(_) => true,
        }),
{
    match t {
        TreeV::Document(root) => {
            lemma_build_wf(*root, 1, limit);
        },
        _ => {
            lemma_build_wf(t, 1, limit);
        },
    }
}

} // verus!
