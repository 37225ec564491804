//! The grammar and the parse-tree producer: a recursive-descent parser
//! with PEG ordered-choice semantics. The spec functions define the
//! grammar over sequences of characters; the exec functions return
//! exactly what the spec functions denote.
//!
//! Rules: a document is one top-level item, ordinarily an element,
//! surrounded by insignificant whitespace. An element is `<` name, an optional single
//! `name="value"` attribute, `>`, a run of items, and `</` name `>`,
//! whose name must equal the opening name. Items are, in order of
//! choice: a bare text run (no `<`), a comment `<!-- ... -->`, a
//! description `<desc> ... </desc>`, a heading `<h` digit `>` text
//! `</h` digit `>`, a text block `<p> ... </p>`, or a nested element.

use vstd::prelude::*;

use crate::parser::errors::{ParseError, ParseErrorV};
use crate::parser::scan::{
    comment_text, comment_text_exec, find_pat, find_pat_exec, is_digit, is_digit_exec,
    is_name_start, is_name_start_exec, lemma_find_pat, lemma_text_end, match_at, match_at_exec,
    name_end, name_end_exec, skip_ws, skip_ws_exec, text_end, text_end_exec, trim, trim_substr,
};
use crate::parser::tree::{attr_view, lemma_trees_view, tree_view, trees_view, ParseTree, TreeV};

verus! {

/// Default bound on element nesting depth.
pub const DEFAULT_MAX_DEPTH: usize = 64;

pub open spec fn tree_res_view(r: Result<(ParseTree, usize), ParseError>) -> Result<
    (TreeV, int),
    ParseErrorV,
> {
    match r {
        Ok((t, k)) => Ok((t@, k as int)),
        Err(e) => Err(e@),
    }
}

pub open spec fn trees_res_view(r: Result<(Vec<ParseTree>, usize), ParseError>) -> Result<
    (Seq<TreeV>, int),
    ParseErrorV,
> {
    match r {
        Ok((v, k)) => Ok((trees_view(v@), k as int)),
        Err(e) => Err(e@),
    }
}

pub open spec fn attr_res_view(r: Result<(Option<(String, String)>, usize), ParseError>) -> Result<
    (Option<(Seq<char>, Seq<char>)>, int),
    ParseErrorV,
> {
    match r {
        Ok((a, k)) => Ok((attr_view(a), k as int)),
        Err(e) => Err(e@),
    }
}

pub open spec fn doc_res_view(r: Result<ParseTree, ParseError>) -> Result<TreeV, ParseErrorV> {
    match r {
        Ok(t) => Ok(t@),
        Err(e) => Err(e@),
    }
}

/// Zero or one `name="value"` attribute assignment at `j`.
pub open spec fn spec_parse_attr(s: Seq<char>, j: int) -> Result<
    (Option<(Seq<char>, Seq<char>)>, int),
    ParseErrorV,
> {
    if !(0 <= j && j < s.len() && is_name_start(s[j])) {
        Ok((None, j))
    } else {
        let ae = name_end(s, j);
        if !(ae + 1 < s.len() && s[ae] == '=' && s[ae + 1] == '"') {
            Err(ParseErrorV::SyntaxError { position: ae, expected: "=\""@ })
        } else {
            match find_pat(s, ae + 2, "\""@) {
                Some(ve) => Ok((Some((s.subrange(j, ae), s.subrange(ae + 2, ve))), ve + 1)),
                None => Err(
                    ParseErrorV::SyntaxError { position: s.len() as int, expected: "\""@ },
                ),
            }
        }
    }
}

/// An element starting at `i`, at nesting depth `depth`.
pub open spec fn spec_parse_element(s: Seq<char>, i: int, depth: int, limit: int) -> Result<
    (TreeV, int),
    ParseErrorV,
>
    decreases s.len() - i, 0int,
{
    if depth > limit {
        Err(ParseErrorV::NestingTooDeep { limit })
    } else if !(0 <= i && i + 1 < s.len() && s[i] == '<' && is_name_start(s[i + 1])) {
        Err(ParseErrorV::SyntaxError { position: i, expected: "element"@ })
    } else {
        let ne = name_end(s, i + 1);
        let tag = s.subrange(i + 1, ne);
        let aj = skip_ws(s, ne);
        match spec_parse_attr(s, aj) {
            Err(e) => Err(e),
            Ok((attr, ke)) => {
                let k = skip_ws(s, ke);
                if !(k < s.len() && s[k] == '>') {
                    Err(ParseErrorV::SyntaxError { position: k, expected: ">"@ })
                } else {
                    // The clamp below never fires on the positions the
                    // scanners return; it keeps the measure decreasing.
                    let body = if k + 1 <= i {
                        i + 1
                    } else {
                        k + 1
                    };
                    match spec_parse_items(s, body, depth, limit) {
                        Err(e) => Err(e),
                        Ok((children, p)) => {
                            if !(0 <= p && p + 1 < s.len() && s[p] == '<' && s[p + 1] == '/') {
                                Err(ParseErrorV::SyntaxError { position: p, expected: "closing tag"@ })
                            } else {
                                let ce = name_end(s, p + 2);
                                let cname = s.subrange(p + 2, ce);
                                if !(ce < s.len() && s[ce] == '>') {
                                    Err(ParseErrorV::SyntaxError { position: ce, expected: ">"@ })
                                } else if cname == tag {
                                    Ok((TreeV::Element { tag_name: tag, attr, children }, ce + 1))
                                } else {
                                    Err(
                                        ParseErrorV::MismatchedClosingTag {
                                            opening_name: tag,
                                            closing_name: cname,
                                            position: p,
                                        },
                                    )
                                }
                            }
                        },
                    }
                }
            },
        }
    }
}

/// The run of items inside an element body, starting at `i` and ending
/// before the element's closing tag (or the end of the input).
pub open spec fn spec_parse_items(s: Seq<char>, i: int, depth: int, limit: int) -> Result<
    (Seq<TreeV>, int),
    ParseErrorV,
>
    decreases s.len() - i, 2int,
{
    let j0 = skip_ws(s, i);
    let j = if j0 < i {
        i
    } else {
        j0
    };
    if j >= s.len() {
        Ok((Seq::empty(), j))
    } else if j + 1 < s.len() && s[j] == '<' && s[j + 1] == '/' {
        Ok((Seq::empty(), j))
    } else {
        match spec_parse_item(s, j, depth, limit) {
            Err(e) => Err(e),
            Ok((t, k0)) => {
                let k = if k0 <= j {
                    j + 1
                } else if k0 <= s.len() {
                    k0
                } else {
                    s.len() as int
                };
                match spec_parse_items(s, k, depth, limit) {
                    Err(e) => Err(e),
                    Ok((rest, p)) => Ok((seq![t] + rest, p)),
                }
            },
        }
    }
}

/// One item at `j` (`j` is on a non-whitespace character that does not
/// open a closing tag). Ordered choice over the grammar's alternatives.
pub open spec fn spec_parse_item(s: Seq<char>, j: int, depth: int, limit: int) -> Result<
    (TreeV, int),
    ParseErrorV,
>
    decreases s.len() - j, 1int,
{
    if !(0 <= j && j < s.len()) {
        Err(ParseErrorV::SyntaxError { position: j, expected: "content"@ })
    } else if s[j] != '<' {
        let e = text_end(s, j);
        Ok((TreeV::Text { text: s.subrange(j, e) }, e))
    } else if match_at(s, j, "<!--"@) {
        match find_pat(s, j + 4, "-->"@) {
            Some(c) => Ok((TreeV::Comment { text: comment_text(s.subrange(j + 4, c)) }, c + 3)),
            None => Err(ParseErrorV::SyntaxError { position: s.len() as int, expected: "-->"@ }),
        }
    } else if match_at(s, j, "<desc>"@) {
        match find_pat(s, j + 6, "</desc>"@) {
            Some(c) => Ok((TreeV::Description { text: trim(s.subrange(j + 6, c)) }, c + 7)),
            None => Err(
                ParseErrorV::SyntaxError { position: s.len() as int, expected: "</desc>"@ },
            ),
        }
    } else if j + 3 < s.len() && s[j + 1] == 'h' && is_digit(s[j + 2]) && s[j + 3] == '>' {
        let d = s[j + 2];
        let ti = j + 4;
        let te = text_end(s, ti);
        if te + 5 <= s.len() && s[te] == '<' && s[te + 1] == '/' && s[te + 2] == 'h' && s[te + 3]
            == d && s[te + 4] == '>' {
            Ok((TreeV::Heading { level_digit: d, text: s.subrange(ti, te) }, te + 5))
        } else {
            Err(ParseErrorV::SyntaxError { position: te, expected: "heading closing tag"@ })
        }
    } else if match_at(s, j, "<p>"@) {
        let ti = j + 3;
        let te = text_end(s, ti);
        if te + 1 < s.len() && s[te] == '<' && s[te + 1] == '/' {
            let ce = name_end(s, te + 2);
            let cname = s.subrange(te + 2, ce);
            if !(ce < s.len() && s[ce] == '>') {
                Err(ParseErrorV::SyntaxError { position: ce, expected: ">"@ })
            } else if cname == "p"@ {
                Ok((TreeV::Text { text: s.subrange(ti, te) }, ce + 1))
            } else {
                Err(
                    ParseErrorV::MismatchedClosingTag {
                        opening_name: "p"@,
                        closing_name: cname,
                        position: te,
                    },
                )
            }
        } else {
            Err(ParseErrorV::SyntaxError { position: te, expected: "</p>"@ })
        }
    } else if j + 1 < s.len() && s[j + 1] == '/' {
        Err(ParseErrorV::SyntaxError { position: j, expected: "content"@ })
    } else {
        spec_parse_element(s, j, depth + 1, limit)
    }
}

/// A whole document: one top-level item (ordinarily an element)
/// surrounded by insignificant whitespace.
pub open spec fn spec_parse_document(s: Seq<char>, limit: int) -> Result<TreeV, ParseErrorV> {
    let i = skip_ws(s, 0);
    match spec_parse_item(s, i, 0, limit) {
        Err(e) => Err(e),
        Ok((t, j)) => {
            let k = skip_ws(s, j);
            if k == s.len() {
                Ok(TreeV::Document(Box::new(t)))
            } else {
                Err(ParseErrorV::SyntaxError { position: k, expected: "end of input"@ })
            }
        },
    }
}

/// Parse zero or one attribute assignment.
fn parse_attr(s: &str, n: usize, j: usize) -> (r: Result<
    (Option<(String, String)>, usize),
    ParseError,
>)
    requires
        n == s@.len(),
        j <= n,
    ensures
        attr_res_view(r) == spec_parse_attr(s@, j as int),
        (match r {
            Ok((a, k)) => j <= k <= n,
            Err(_) => true,
        }),
{
    proof {
        reveal_strlit("\"");
    }
    if !(j < n && is_name_start_exec(s.get_char(j))) {
        return Ok((None, j));
    }
    let ae = name_end_exec(s, n, j);
    if !(n - ae > 1 && s.get_char(ae) == '=' && s.get_char(ae + 1) == '"') {
        return Err(ParseError::SyntaxError { position: ae, expected: String::from_str("=\"") });
    }
    match find_pat_exec(s, n, ae + 2, "\"", 1) {
        Some(ve) => {
            proof {
                lemma_find_pat(s@, ae + 2, "\""@);
            }
            let name = String::from_str(s.substring_char(j, ae));
            let value = String::from_str(s.substring_char(ae + 2, ve));
            Ok((Some((name, value)), ve + 1))
        },
        None => Err(ParseError::SyntaxError { position: n, expected: String::from_str("\"") }),
    }
}

/// Parse one item of an element body.
fn parse_item(s: &str, n: usize, j: usize, depth: usize, limit: usize) -> (r: Result<
    (ParseTree, usize),
    ParseError,
>)
    requires
        n == s@.len(),
        j < n,
        depth <= limit,
    ensures
        tree_res_view(r) == spec_parse_item(s@, j as int, depth as int, limit as int),
        (match r {
            Ok((t, k)) => j < k <= n,
            Err(_) => true,
        }),
    decreases n - j, 1int,
{
    proof {
        reveal_strlit("<!--");
        reveal_strlit("-->");
        reveal_strlit("<desc>");
        reveal_strlit("</desc>");
        reveal_strlit("<p>");
        reveal_strlit("p");
    }
    if s.get_char(j) != '<' {
        let e = text_end_exec(s, n, j);
        proof {
            assert(text_end(s@, j as int) == text_end(s@, j + 1));
            lemma_text_end(s@, j + 1);
        }
        let t = String::from_str(s.substring_char(j, e));
        return Ok((ParseTree::Text { text: t }, e));
    }
    if match_at_exec(s, n, j, "<!--", 4) {
        match find_pat_exec(s, n, j + 4, "-->", 3) {
            Some(c) => {
                proof {
                    lemma_find_pat(s@, j + 4, "-->"@);
                }
                let txt = comment_text_exec(s, n, j + 4, c);
                return Ok((ParseTree::Comment { text: txt }, c + 3));
            },
            None => {
                return Err(
                    ParseError::SyntaxError { position: n, expected: String::from_str("-->") },
                );
            },
        }
    }
    if match_at_exec(s, n, j, "<desc>", 6) {
        match find_pat_exec(s, n, j + 6, "</desc>", 7) {
            Some(c) => {
                proof {
                    lemma_find_pat(s@, j + 6, "</desc>"@);
                }
                let txt = trim_substr(s, n, j + 6, c);
                return Ok((ParseTree::Description { text: txt }, c + 7));
            },
            None => {
                return Err(
                    ParseError::SyntaxError { position: n, expected: String::from_str("</desc>") },
                );
            },
        }
    }
    if n - j > 3 && s.get_char(j + 1) == 'h' && is_digit_exec(s.get_char(j + 2)) && s.get_char(
        j + 3,
    ) == '>' {
        let d = s.get_char(j + 2);
        let ti = j + 4;
        let te = text_end_exec(s, n, ti);
        if n - te >= 5 && s.get_char(te) == '<' && s.get_char(te + 1) == '/' && s.get_char(te + 2)
            == 'h' && s.get_char(te + 3) == d && s.get_char(te + 4) == '>' {
            let txt = String::from_str(s.substring_char(ti, te));
            return Ok((ParseTree::Heading { level_digit: d, text: txt }, te + 5));
        } else {
            return Err(
                ParseError::SyntaxError {
                    position: te,
                    expected: String::from_str("heading closing tag"),
                },
            );
        }
    }
    if match_at_exec(s, n, j, "<p>", 3) {
        let ti = j + 3;
        let te = text_end_exec(s, n, ti);
        if n - te > 1 && s.get_char(te) == '<' && s.get_char(te + 1) == '/' {
            let ce = name_end_exec(s, n, te + 2);
            let cname = String::from_str(s.substring_char(te + 2, ce));
            if !(ce < n && s.get_char(ce) == '>') {
                return Err(
                    ParseError::SyntaxError { position: ce, expected: String::from_str(">") },
                );
            } else if cname == String::from_str("p") {
                let txt = String::from_str(s.substring_char(ti, te));
                return Ok((ParseTree::Text { text: txt }, ce + 1));
            } else {
                return Err(
                    ParseError::MismatchedClosingTag {
                        opening_name: String::from_str("p"),
                        closing_name: cname,
                        position: te,
                    },
                );
            }
        } else {
            return Err(
                ParseError::SyntaxError { position: te, expected: String::from_str("</p>") },
            );
        }
    }
    if n - j > 1 && s.get_char(j + 1) == '/' {
        return Err(ParseError::SyntaxError { position: j, expected: String::from_str("content") });
    }
    if depth >= limit {
        return Err(ParseError::NestingTooDeep { limit });
    }
    parse_element(s, n, j, depth + 1, limit)
}

/// Helper: prepend already-parsed items to the result of the rest.
pub open spec fn items_prepend(pre: Seq<TreeV>, r: Result<(Seq<TreeV>, int), ParseErrorV>) -> Result<
    (Seq<TreeV>, int),
    ParseErrorV,
> {
    match r {
        Ok((rest, p)) => Ok((pre + rest, p)),
        Err(e) => Err(e),
    }
}

/// Parse the run of items of an element body.
fn parse_items(s: &str, n: usize, i: usize, depth: usize, limit: usize) -> (r: Result<
    (Vec<ParseTree>, usize),
    ParseError,
>)
    requires
        n == s@.len(),
        i <= n,
        1 <= depth <= limit,
    ensures
        trees_res_view(r) == spec_parse_items(s@, i as int, depth as int, limit as int),
        (match r {
            Ok((v, p)) => i <= p <= n,
            Err(_) => true,
        }),
    decreases n - i, 2int,
{
    let ghost d = depth as int;
    let ghost l = limit as int;
    let mut out: Vec<ParseTree> = Vec::new();
    let mut cur: usize = i;
    proof {
        match spec_parse_items(s@, i as int, d, l) {
            Ok((rest, p)) => {
                assert(Seq::<TreeV>::empty() + rest =~= rest);
            },
            Err(_) => {},
        }
    }
    loop
        invariant
            n == s@.len(),
            i <= cur <= n,
            1 <= depth <= limit,
            d == depth as int,
            l == limit as int,
            spec_parse_items(s@, i as int, d, l) == items_prepend(
                trees_view(out@),
                spec_parse_items(s@, cur as int, d, l),
            ),
        decreases n - cur,
    {
        let j = skip_ws_exec(s, n, cur);
        if j >= n {
            proof {
                assert(trees_view(out@) + Seq::<TreeV>::empty() =~= trees_view(out@));
            }
            return Ok((out, j));
        }
        if n - j > 1 && s.get_char(j) == '<' && s.get_char(j + 1) == '/' {
            proof {
                assert(trees_view(out@) + Seq::<TreeV>::empty() =~= trees_view(out@));
            }
            return Ok((out, j));
        }
        match parse_item(s, n, j, depth, limit) {
            Err(e) => {
                return Err(e);
            },
            Ok((t, k)) => {
                proof {
                    let pre = trees_view(out@);
                    lemma_trees_view(out@);
                    lemma_trees_view(out@.push(t));
                    assert(trees_view(out@.push(t)) =~= pre + seq![tree_view(t)]);
                    match spec_parse_items(s@, k as int, d, l) {
                        Ok((rest, p)) => {
                            assert((pre + seq![tree_view(t)]) + rest =~= pre + (seq![tree_view(t)]
                                + rest));
                        },
                        Err(_) => {},
                    }
                }
                out.push(t);
                cur = k;
            },
        }
    }
}

/// Parse one element, including its body and closing tag.
fn parse_element(s: &str, n: usize, i: usize, depth: usize, limit: usize) -> (r: Result<
    (ParseTree, usize),
    ParseError,
>)
    requires
        n == s@.len(),
        i <= n,
        1 <= depth,
    ensures
        tree_res_view(r) == spec_parse_element(s@, i as int, depth as int, limit as int),
        (match r {
            Ok((t, k)) => i < k <= n,
            Err(_) => true,
        }),
    decreases n - i, 0int,
{
    if depth > limit {
        return Err(ParseError::NestingTooDeep { limit });
    }
    if !(n - i > 1 && s.get_char(i) == '<' && is_name_start_exec(s.get_char(i + 1))) {
        return Err(ParseError::SyntaxError { position: i, expected: String::from_str("element") });
    }
    let ne = name_end_exec(s, n, i + 1);
    let tag = String::from_str(s.substring_char(i + 1, ne));
    let aj = skip_ws_exec(s, n, ne);
    let (attr, ke) = match parse_attr(s, n, aj) {
        Ok(p) => p,
        Err(e) => {
            return Err(e);
        },
    };
    let k = skip_ws_exec(s, n, ke);
    if !(k < n && s.get_char(k) == '>') {
        return Err(ParseError::SyntaxError { position: k, expected: String::from_str(">") });
    }
    let body = k + 1;
    let (children, p) = match parse_items(s, n, body, depth, limit) {
        Ok(p) => p,
        Err(e) => {
            return Err(e);
        },
    };
    if !(n - p > 1 && s.get_char(p) == '<' && s.get_char(p + 1) == '/') {
        return Err(
            ParseError::SyntaxError { position: p, expected: String::from_str("closing tag") },
        );
    }
    let ce = name_end_exec(s, n, p + 2);
    let cname = String::from_str(s.substring_char(p + 2, ce));
    if !(ce < n && s.get_char(ce) == '>') {
        return Err(ParseError::SyntaxError { position: ce, expected: String::from_str(">") });
    }
    if cname == tag {
        Ok((ParseTree::Element { tag_name: tag, attr, children }, ce + 1))
    } else {
        Err(ParseError::MismatchedClosingTag { opening_name: tag, closing_name: cname, position: p })
    }
}

/// Parse a whole document with the given nesting bound.
pub fn parse_html_with_limit(input: &str, limit: usize) -> (r: Result<ParseTree, ParseError>)
    ensures
        doc_res_view(r) == spec_parse_document(input@, limit as int),
{
    let n = input.unicode_len();
    let i = skip_ws_exec(input, n, 0);
    if i >= n {
        return Err(
            ParseError::SyntaxError { position: i, expected: String::from_str("content") },
        );
    }
    match parse_item(input, n, i, 0, limit) {
        Err(e) => Err(e),
        Ok((t, j)) => {
            let k = skip_ws_exec(input, n, j);
            if k == n {
                Ok(ParseTree::Document(Box::new(t)))
            } else {
                Err(
                    ParseError::SyntaxError {
                        position: k,
                        expected: String::from_str("end of input"),
                    },
                )
            }
        },
    }
}

/// Parse a whole document with the default nesting bound.
pub fn parse_html(input: &str) -> (r: Result<ParseTree, ParseError>)
    ensures
        doc_res_view(r) == spec_parse_document(input@, DEFAULT_MAX_DEPTH as int),
{
    parse_html_with_limit(input, DEFAULT_MAX_DEPTH)
}

} // verus!
