//! The recursive-descent tree builder: groups consecutive same-width letters
//! into content runs, matches quotation-mark pairs (including nested pairs)
//! into recursive groups, and treats everything else as atomic nodes. Each
//! paragraph parses independently: a malformed paragraph yields its own error
//! and does not disturb its neighbors.
use vstd::prelude::*;

use crate::char_kind::{
    chinese_left_quotation, chinese_quote_closer, chinese_right_quotation,
    is_chinese_left_quotation_char, is_chinese_right_quotation_char, is_western_quotation_char,
    kind, kind_of, quote_closer, western_quotation, CharKind,
};
use crate::encoding::string_from_chars;
use crate::errors::{ErrorView, Span, ZhlintError};
use crate::lexer::Token;
use crate::nodes::{
    node_view, nodes_view, Node, NodeView, OffsetSpaceView, OffsetValue, ParagraphNodes, Space,
};

verus! {

/// The character of a token, where it has one.
pub open spec fn char_of(t: Token) -> char {
    match t {
        Token::Char { value, .. } => value,
        Token::Event { .. } => ' ',
    }
}

/// Whether a token is a single whitespace character.
pub open spec fn is_space_token(t: Token) -> bool {
    t is Char && kind_of(char_of(t)) is Space
}

/// Whether a token is a single character of the given kind.
pub open spec fn is_kind_token(t: Token, k: CharKind) -> bool {
    t is Char && kind_of(char_of(t)) == k
}

/// The end of the whitespace run that starts at `i`.
pub open spec fn space_end(toks: Seq<Token>, i: int, bound: int) -> int
    decreases bound - i,
{
    if i < bound && is_space_token(toks[i]) {
        space_end(toks, i + 1, bound)
    } else {
        i
    }
}

/// The end of the run of letter characters of kind `k` that starts at `i`.
pub open spec fn letter_run_end(toks: Seq<Token>, i: int, bound: int, k: CharKind) -> int
    decreases bound - i,
{
    if i < bound && is_kind_token(toks[i], k) {
        letter_run_end(toks, i + 1, bound, k)
    } else {
        i
    }
}

/// The characters of the tokens in `[i, j)`.
pub open spec fn run_chars(toks: Seq<Token>, i: int, j: int) -> Seq<char>
    decreases j - i,
{
    if i < j {
        run_chars(toks, i, j - 1) + seq![char_of(toks[j - 1])]
    } else {
        Seq::empty()
    }
}

/// The whitespace run at `i`: its characters, and its byte range — that of
/// its tokens when there are any, else empty and anchored at the end of the
/// node it trails.
pub open spec fn spec_space(toks: Seq<Token>, i: int, bound: int, anchor: usize) -> OffsetSpaceView {
    let j = space_end(toks, i, bound);
    OffsetSpaceView {
        original: run_chars(toks, i, j),
        modified: None,
        offset: if j > i {
            Span { start: toks[i].spec_offset().start, end: toks[j - 1].spec_offset().end }
        } else {
            Span { start: anchor, end: anchor }
        },
    }
}

/// A freshly parsed rewritable character.
pub open spec fn mk_offset_char(c: char, offset: Span) -> OffsetValue<char> {
    OffsetValue { original: c, modified: None, offset }
}

/// Whether the quote character at `i` is an apostrophe standing directly
/// between two half-width letters (a contraction or possessive), which is
/// kept as an ordinary character instead of opening a group.
pub open spec fn apostrophe_exception(toks: Seq<Token>, i: int) -> bool {
    &&& char_of(toks[i]) == '\''
    &&& i - 1 >= 0
    &&& i + 1 < toks.len()
    &&& is_kind_token(toks[i - 1], CharKind::LetterHalf)
    &&& is_kind_token(toks[i + 1], CharKind::LetterHalf)
}

/// The result of parsing one node: its view and the index after it.
pub enum SpecParsed {
    Node { node: NodeView, next: int },
    Fail { err: ErrorView },
}

/// The result of parsing a group's children: their views, the closing
/// delimiter's byte range, and the index after the closer.
pub enum SpecParsedItems {
    Items { nodes: Seq<NodeView>, end_offset: Span, next: int },
    Fail { err: ErrorView },
}

/// Parses the node at `i`.
pub open spec fn spec_parse_node(toks: Seq<Token>, i: int, bound: int) -> SpecParsed
    decreases bound - i, 0int,
{
    if i >= bound {
        SpecParsed::Fail { err: ErrorView::UnexpectedEnd }
    } else {
        match toks[i] {
            Token::Event { value, offset } => SpecParsed::Node {
                node: NodeView::Event {
                    value,
                    offset,
                    space_after: spec_space(toks, i + 1, bound, offset.end),
                },
                next: space_end(toks, i + 1, bound),
            },
            Token::Char { value, offset } => {
                let k = kind_of(value);
                if k is LetterHalf || k is LetterFull {
                    let e = letter_run_end(toks, i + 1, bound, k);
                    let run_end = if e > i + 1 {
                        toks[e - 1].spec_offset().end
                    } else {
                        offset.end
                    };
                    let chars = seq![value] + run_chars(toks, i + 1, e);
                    let run_off = Span { start: offset.start, end: run_end };
                    let sp = spec_space(toks, e, bound, run_end);
                    SpecParsed::Node {
                        node: if k is LetterHalf {
                            NodeView::HalfwidthContent {
                                value: chars,
                                offset: run_off,
                                space_after: sp,
                            }
                        } else {
                            NodeView::FullwidthContent {
                                value: chars,
                                offset: run_off,
                                space_after: sp,
                            }
                        },
                        next: space_end(toks, e, bound),
                    }
                } else if is_chinese_left_quotation_char(value) {
                    spec_parse_group(toks, i + 1, bound, value, offset, chinese_quote_closer(value))
                } else if is_chinese_right_quotation_char(value) {
                    SpecParsed::Fail {
                        err: ErrorView::UnclosedQuotationMark { value, offset },
                    }
                } else if is_western_quotation_char(value) && !apostrophe_exception(toks, i) {
                    spec_parse_group(toks, i + 1, bound, value, offset, value)
                } else {
                    SpecParsed::Node {
                        node: NodeView::Char {
                            value: mk_offset_char(value, offset),
                            space_after: spec_space(toks, i + 1, bound, offset.end),
                        },
                        next: space_end(toks, i + 1, bound),
                    }
                }
            },
        }
    }
}

/// Parses the children of a group opened just before `i`, up to the closing
/// delimiter.
pub open spec fn spec_group_items(toks: Seq<Token>, i: int, bound: int, closer: char) -> SpecParsedItems
    decreases bound - i, 1int,
{
    if i >= bound {
        SpecParsedItems::Fail { err: ErrorView::UnexpectedEnd }
    } else if toks[i] is Char && char_of(toks[i]) == closer {
        SpecParsedItems::Items {
            nodes: Seq::empty(),
            end_offset: toks[i].spec_offset(),
            next: i + 1,
        }
    } else {
        match spec_parse_node(toks, i, bound) {
            SpecParsed::Node { node, next } => {
                let j = if next <= i || next > bound {
                    i + 1
                } else {
                    next
                };
                match spec_group_items(toks, j, bound, closer) {
                    SpecParsedItems::Items { nodes, end_offset, next } => SpecParsedItems::Items {
                        nodes: seq![node] + nodes,
                        end_offset,
                        next,
                    },
                    SpecParsedItems::Fail { err } => SpecParsedItems::Fail { err },
                }
            },
            SpecParsed::Fail { err } => SpecParsedItems::Fail { err },
        }
    }
}

/// Parses a whole group: the delimiters, the whitespace just inside the
/// opener, the children, and the trailing whitespace.
pub open spec fn spec_parse_group(
    toks: Seq<Token>,
    i: int,
    bound: int,
    start_c: char,
    start_off: Span,
    closer: char,
) -> SpecParsed
    decreases bound - i, 2int,
{
    if i > bound {
        SpecParsed::Fail { err: ErrorView::UnexpectedEnd }
    } else {
        let isp = spec_space(toks, i, bound, start_off.end);
        let j0 = space_end(toks, i, bound);
        let j = if j0 < i {
            i
        } else if j0 > bound {
            bound
        } else {
            j0
        };
        match spec_group_items(toks, j, bound, closer) {
            SpecParsedItems::Items { nodes, end_offset, next } => SpecParsed::Node {
                node: NodeView::Group {
                    start: mk_offset_char(start_c, start_off),
                    inner_space_before: isp,
                    nodes,
                    end: mk_offset_char(closer, end_offset),
                    space_after: spec_space(toks, next, bound, end_offset.end),
                },
                next: space_end(toks, next, bound),
            },
            SpecParsedItems::Fail { err } => SpecParsed::Fail { err },
        }
    }
}

/// The result of parsing one paragraph.
pub enum SpecParagraph {
    Nodes { nodes: Seq<NodeView> },
    Fail { err: ErrorView },
}

/// Parses the nodes of one paragraph, whose tokens end at `bound`.
pub open spec fn spec_parse_paragraph(toks: Seq<Token>, i: int, bound: int) -> SpecParagraph
    decreases bound - i, 4int,
{
    if i >= bound {
        SpecParagraph::Nodes { nodes: Seq::empty() }
    } else {
        match spec_parse_node(toks, i, bound) {
            SpecParsed::Node { node, next } => {
                let j = if next <= i || next > bound {
                    i + 1
                } else {
                    next
                };
                match spec_parse_paragraph(toks, j, bound) {
                    SpecParagraph::Nodes { nodes } => SpecParagraph::Nodes {
                        nodes: seq![node] + nodes,
                    },
                    SpecParagraph::Fail { err } => SpecParagraph::Fail { err },
                }
            },
            SpecParsed::Fail { err } => SpecParagraph::Fail { err },
        }
    }
}

/// Whether a token closes a paragraph.
pub open spec fn is_paragraph_end_token(t: Token) -> bool {
    match t {
        Token::Event { value, .. } => value is ParagraphEnd,
        _ => false,
    }
}

/// The index of the token that closes the paragraph starting at `i`, or the
/// stream's end.
pub open spec fn paragraph_end(toks: Seq<Token>, i: int) -> int
    decreases toks.len() - i,
{
    if i < toks.len() {
        if is_paragraph_end_token(toks[i]) {
            i
        } else {
            paragraph_end(toks, i + 1)
        }
    } else {
        i
    }
}

/// Parses the whole token stream, one paragraph per entry; each paragraph's
/// tokens run to its closing token, which belongs to no paragraph.
pub open spec fn spec_parse(toks: Seq<Token>, i: int) -> Seq<SpecParagraph>
    decreases toks.len() - i,
{
    if i >= toks.len() {
        Seq::empty()
    } else {
        let pe0 = paragraph_end(toks, i);
        let pe = if pe0 < i {
            i
        } else if pe0 > toks.len() {
            toks.len() as int
        } else {
            pe0
        };
        seq![spec_parse_paragraph(toks, i, pe)] + spec_parse(
            toks,
            if pe + 1 > toks.len() {
                toks.len() as int
            } else {
                pe + 1
            },
        )
    }
}

/// The view of one parsed paragraph result.
pub open spec fn paragraph_result_view(r: Result<ParagraphNodes, ZhlintError>) -> SpecParagraph {
    match r {
        Ok(p) => SpecParagraph::Nodes { nodes: nodes_view(p.0@) },
        Err(e) => SpecParagraph::Fail { err: e@ },
    }
}

/// The views of a whole parse result.
pub open spec fn paragraphs_view(rs: Seq<Result<ParagraphNodes, ZhlintError>>) -> Seq<SpecParagraph> {
    Seq::new(rs.len(), |i: int| paragraph_result_view(rs[i]))
}

/// Scans past the whitespace run starting at `i`.
fn scan_space(toks: &Vec<Token>, i: usize, bound: usize) -> (j: usize)
    requires
        i <= bound <= toks@.len(),
    ensures
        j == space_end(toks@, i as int, bound as int),
        i <= j <= bound,
    decreases bound - i,
{
    if i < bound {
        let is_sp = match &toks[i] {
            Token::Char { value, .. } => kind(*value).is_space(),
            _ => false,
        };
        if is_sp {
            return scan_space(toks, i + 1, bound);
        }
    }
    i
}

/// Collects the characters of the tokens in `[i, j)`.
fn collect_chars(toks: &Vec<Token>, i: usize, j: usize) -> (v: Vec<char>)
    requires
        i <= j <= toks@.len(),
        forall|k: int| i <= k < j ==> toks@[k] is Char,
    ensures
        v@ == run_chars(toks@, i as int, j as int),
    decreases j - i,
{
    let mut v: Vec<char> = Vec::new();
    let mut k: usize = i;
    while k < j
        invariant
            i <= k <= j <= toks@.len(),
            forall|m: int| i <= m < j ==> toks@[m] is Char,
            v@ == run_chars(toks@, i as int, k as int),
        decreases j - k,
    {
        match &toks[k] {
            Token::Char { value, .. } => {
                v.push(*value);
            },
            Token::Event { .. } => {
                proof {
                    assert(false);
                }
            },
        }
        k = k + 1;
    }
    v
}

/// Parses the whitespace run at `i`, anchored at `anchor` when empty.
fn parse_space_at(toks: &Vec<Token>, i: usize, bound: usize, anchor: usize) -> (r: (
    OffsetValue<Space>,
    usize,
))
    requires
        i <= bound <= toks@.len(),
    ensures
        r.0@ == spec_space(toks@, i as int, bound as int, anchor),
        r.1 == space_end(toks@, i as int, bound as int),
        i <= r.1 <= bound,
        r.0.modified is None,
    decreases bound - i,
{
    let j = scan_space(toks, i, bound);
    proof {
        lemma_space_run_is_chars(toks@, i as int, bound as int);
    }
    let chars = collect_chars(toks, i, j);
    let space = if chars.len() == 0 {
        Space::Empty
    } else if chars.len() == 1 && chars[0] == ' ' {
        proof {
            assert(chars@ =~= seq![' ']);
        }
        Space::One
    } else {
        Space::Literal(string_from_chars(&chars))
    };
    let offset = if j > i {
        Span { start: toks[i].offset().start, end: toks[j - 1].offset().end }
    } else {
        Span { start: anchor, end: anchor }
    };
    (OffsetValue { original: space, modified: None, offset }, j)
}

/// Every token inside a whitespace run is a character token.
proof fn lemma_space_run_is_chars(toks: Seq<Token>, i: int, bound: int)
    requires
        0 <= i <= bound <= toks.len(),
    ensures
        forall|k: int|
            i <= k < space_end(toks, i, bound) ==> #[trigger] toks[k] is Char,
        i <= space_end(toks, i, bound) <= bound,
    decreases bound - i,
{
    if i < bound && is_space_token(toks[i]) {
        lemma_space_run_is_chars(toks, i + 1, bound);
    }
}

/// Every token inside a letter run is a character token.
proof fn lemma_letter_run_is_chars(toks: Seq<Token>, i: int, bound: int, k: CharKind)
    requires
        0 <= i <= bound <= toks.len(),
    ensures
        forall|m: int|
            i <= m < letter_run_end(toks, i, bound, k) ==> #[trigger] toks[m] is Char,
        i <= letter_run_end(toks, i, bound, k) <= bound,
    decreases bound - i,
{
    if i < bound && is_kind_token(toks[i], k) {
        lemma_letter_run_is_chars(toks, i + 1, bound, k);
    }
}

/// Scans past the letter run of kind `k` starting at `i`.
fn scan_letter_run(toks: &Vec<Token>, i: usize, bound: usize, want: CharKind) -> (j: usize)
    requires
        i <= bound <= toks@.len(),
    ensures
        j == letter_run_end(toks@, i as int, bound as int, want),
        i <= j <= bound,
    decreases bound - i,
{
    if i < bound {
        let is_k = match &toks[i] {
            Token::Char { value, .. } => kind(*value) == want,
            _ => false,
        };
        if is_k {
            return scan_letter_run(toks, i + 1, bound, want);
        }
    }
    i
}

/// Parses the node at `i`; `bound` is the paragraph's end.
fn parse_node(toks: &Vec<Token>, i: usize, bound: usize) -> (r: Result<
    (Node, usize),
    ZhlintError,
>)
    requires
        i < bound <= toks@.len(),
    ensures
        match r {
            Ok((node, next)) => spec_parse_node(toks@, i as int, bound as int)
                == (SpecParsed::Node { node: node_view(node), next: next as int }) && i < next
                <= bound,
            Err(e) => spec_parse_node(toks@, i as int, bound as int) == (SpecParsed::Fail {
                err: e@,
            }),
        },
    decreases bound - i, 0int,
{
    match &toks[i] {
        Token::Event { value, offset } => {
            let (sp, next) = parse_space_at(toks, i + 1, bound, offset.end);
            Ok((Node::Event { value: *value, offset: *offset, space_after: sp }, next))
        },
        Token::Char { value, offset } => {
            let value = *value;
            let offset = *offset;
            let k = kind(value);
            if matches!(k, CharKind::LetterHalf | CharKind::LetterFull) {
                let e = scan_letter_run(toks, i + 1, bound, k);
                let run_end = if e > i + 1 {
                    let last = toks[e - 1].offset();
                    last.end
                } else {
                    offset.end
                };
                proof {
                    lemma_letter_run_is_chars(toks@, i as int + 1, bound as int, k);
                }
                let mut chars = collect_chars(toks, i + 1, e);
                chars.insert(0, value);
                proof {
                    assert(chars@ =~= seq![value] + run_chars(toks@, i as int + 1, e as int));
                }
                let content = string_from_chars(&chars);
                let run_off = Span { start: offset.start, end: run_end };
                let (sp, next) = parse_space_at(toks, e, bound, run_end);
                if matches!(k, CharKind::LetterHalf) {
                    Ok((
                        Node::HalfwidthContent { value: content, offset: run_off, space_after: sp },
                        next,
                    ))
                } else {
                    Ok((
                        Node::FullwidthContent { value: content, offset: run_off, space_after: sp },
                        next,
                    ))
                }
            } else if chinese_left_quotation(value) {
                let closer = quote_closer(value);
                parse_group(toks, i + 1, bound, value, offset, closer)
            } else if chinese_right_quotation(value) {
                Err(ZhlintError::UnclosedQuotationMark { value, offset })
            } else if western_quotation(value) {
                let mut skip = false;
                if i >= 1 && i + 1 < toks.len() && value == '\'' {
                    let prev_half = match &toks[i - 1] {
                        Token::Char { value: pv, .. } => matches!(
                            kind(*pv),
                            CharKind::LetterHalf
                        ),
                        _ => false,
                    };
                    let next_half = match &toks[i + 1] {
                        Token::Char { value: nv, .. } => matches!(
                            kind(*nv),
                            CharKind::LetterHalf
                        ),
                        _ => false,
                    };
                    skip = prev_half && next_half;
                }
                if !skip {
                    parse_group(toks, i + 1, bound, value, offset, value)
                } else {
                    let (sp, next) = parse_space_at(toks, i + 1, bound, offset.end);
                    Ok((
                        Node::Char { value: OffsetValue::new(value, offset), space_after: sp },
                        next,
                    ))
                }
            } else {
                let (sp, next) = parse_space_at(toks, i + 1, bound, offset.end);
                Ok((
                    Node::Char { value: OffsetValue::new(value, offset), space_after: sp },
                    next,
                ))
            }
        },
    }
}

/// Parses a group's children up to its closing delimiter.
fn parse_group_items(toks: &Vec<Token>, i: usize, bound: usize, closer: char) -> (r: Result<
    (Vec<Node>, Span, usize),
    ZhlintError,
>)
    requires
        i <= bound <= toks@.len(),
    ensures
        match r {
            Ok((nodes, end_offset, next)) => spec_group_items(
                toks@,
                i as int,
                bound as int,
                closer,
            ) == (SpecParsedItems::Items {
                nodes: nodes_view(nodes@),
                end_offset,
                next: next as int,
            }) && i < next <= bound,
            Err(e) => spec_group_items(toks@, i as int, bound as int, closer)
                == (SpecParsedItems::Fail { err: e@ }),
        },
    decreases bound - i, 1int,
{
    if i >= bound {
        return Err(ZhlintError::UnexpectedEnd);
    }
    let is_closer = match &toks[i] {
        Token::Char { value, .. } => *value == closer,
        _ => false,
    };
    if is_closer {
        let end_offset = toks[i].offset();
        proof {
            assert(nodes_view(Seq::<Node>::empty()) =~= Seq::<NodeView>::empty());
        }
        return Ok((Vec::new(), end_offset, i + 1));
    }
    match parse_node(toks, i, bound) {
        Ok((node, next)) => {
            match parse_group_items(toks, next, bound, closer) {
                Ok((mut nodes, end_offset, after)) => {
                    let ghost rest = nodes@;
                    nodes.insert(0, node);
                    proof {
                        lemma_nodes_view_insert_front(node, nodes@);
                        assert(nodes@.subrange(1, nodes@.len() as int) =~= rest);
                    }
                    Ok((nodes, end_offset, after))
                },
                Err(e) => Err(e),
            }
        },
        Err(e) => Err(e),
    }
}

/// Prepending a node to a list prepends its view.
proof fn lemma_nodes_view_insert_front(n: Node, s: Seq<Node>)
    requires
        s.len() >= 1,
        s[0] == n,
    ensures
        nodes_view(s) == seq![node_view(n)] + nodes_view(s.subrange(1, s.len() as int)),
{
}

/// Parses a whole group whose opening delimiter stood just before `i`.
fn parse_group(
    toks: &Vec<Token>,
    i: usize,
    bound: usize,
    start_c: char,
    start_off: Span,
    closer: char,
) -> (r: Result<(Node, usize), ZhlintError>)
    requires
        i <= bound <= toks@.len(),
    ensures
        match r {
            Ok((node, next)) => spec_parse_group(
                toks@,
                i as int,
                bound as int,
                start_c,
                start_off,
                closer,
            ) == (SpecParsed::Node { node: node_view(node), next: next as int }) && i < next
                <= bound,
            Err(e) => spec_parse_group(toks@, i as int, bound as int, start_c, start_off, closer)
                == (SpecParsed::Fail { err: e@ }),
        },
    decreases bound - i, 2int,
{
    let (isp, j) = parse_space_at(toks, i, bound, start_off.end);
    match parse_group_items(toks, j, bound, closer) {
        Ok((nodes, end_offset, next)) => {
            let (sp, after) = parse_space_at(toks, next, bound, end_offset.end);
            Ok((
                Node::Group {
                    start: OffsetValue::new(start_c, start_off),
                    inner_space_before: isp,
                    nodes,
                    end: OffsetValue::new(closer, end_offset),
                    space_after: sp,
                },
                after,
            ))
        },
        Err(e) => Err(e),
    }
}

/// Parses the nodes of one paragraph.
fn parse_paragraph(toks: &Vec<Token>, i: usize, bound: usize) -> (r: Result<
    ParagraphNodes,
    ZhlintError,
>)
    requires
        i <= bound <= toks@.len(),
    ensures
        match r {
            Ok(p) => spec_parse_paragraph(toks@, i as int, bound as int) == (SpecParagraph::Nodes {
                nodes: nodes_view(p.0@),
            }),
            Err(e) => spec_parse_paragraph(toks@, i as int, bound as int) == (SpecParagraph::Fail {
                err: e@,
            }),
        },
    decreases bound - i, 3int,
{
    if i >= bound {
        proof {
            assert(nodes_view(Seq::<Node>::empty()) =~= Seq::<NodeView>::empty());
        }
        return Ok(ParagraphNodes(Vec::new()));
    }
    match parse_node(toks, i, bound) {
        Ok((node, next)) => {
            match parse_paragraph(toks, next, bound) {
                Ok(rest) => {
                    let ParagraphNodes(mut nodes) = rest;
                    let ghost tail = nodes@;
                    nodes.insert(0, node);
                    proof {
                        lemma_nodes_view_insert_front(node, nodes@);
                        assert(nodes@.subrange(1, nodes@.len() as int) =~= tail);
                    }
                    Ok(ParagraphNodes(nodes))
                },
                Err(e) => Err(e),
            }
        },
        Err(e) => Err(e),
    }
}

/// Finds the token that closes the paragraph starting at `i`.
fn find_paragraph_end(toks: &Vec<Token>, i: usize) -> (j: usize)
    requires
        i <= toks@.len(),
    ensures
        j == paragraph_end(toks@, i as int),
        i <= j <= toks@.len(),
    decreases toks@.len() - i,
{
    if i < toks.len() {
        let is_end = match &toks[i] {
            Token::Event { value, .. } => matches!(value, crate::lexer::MarkupKind::ParagraphEnd),
            _ => false,
        };
        if !is_end {
            return find_paragraph_end(toks, i + 1);
        }
    }
    i
}

/// The tree builder over a token stream.
pub struct Parser {
    pub tokens: Vec<Token>,
}

impl Parser {
    pub fn new(tokens: Vec<Token>) -> (r: Parser)
        ensures
            r.tokens == tokens,
    {
        Parser { tokens }
    }

    /// Parses the token stream into one node list per paragraph; a paragraph
    /// that fails to parse yields its error and the following paragraphs are
    /// still parsed.
    pub fn parse(&self) -> (r: Vec<Result<ParagraphNodes, ZhlintError>>)
        ensures
            paragraphs_view(r@) == spec_parse(self.tokens@, 0),
    {
        let toks = &self.tokens;
        let mut r: Vec<Result<ParagraphNodes, ZhlintError>> = Vec::new();
        let mut i: usize = 0;
        proof {
            assert(paragraphs_view(Seq::empty()) =~= Seq::<SpecParagraph>::empty());
        }
        while i < toks.len()
            invariant
                i <= toks@.len(),
                toks == &self.tokens,
                paragraphs_view(r@) + spec_parse(toks@, i as int) == spec_parse(self.tokens@, 0),
            decreases toks@.len() - i,
        {
            let ghost i0 = i as int;
            let pe = find_paragraph_end(toks, i);
            let res = parse_paragraph(toks, i, pe);
            r.push(res);
            i = if pe < toks.len() {
                pe + 1
            } else {
                pe
            };
            proof {
                assert(paragraphs_view(r@) =~= paragraphs_view(r@.drop_last()) + seq![
                    paragraph_result_view(r@.last()),
                ]);
                if pe == toks@.len() {
                    assert(spec_parse(toks@, pe as int + 1) =~= Seq::<SpecParagraph>::empty());
                    assert(spec_parse(toks@, pe as int) =~= Seq::<SpecParagraph>::empty());
                }
                assert(paragraphs_view(r@) + spec_parse(toks@, i as int) =~= paragraphs_view(
                    r@.drop_last(),
                ) + spec_parse(toks@, i0));
            }
        }
        proof {
            assert(spec_parse(toks@, i as int) =~= Seq::<SpecParagraph>::empty());
            assert(paragraphs_view(r@) + spec_parse(toks@, i as int) =~= paragraphs_view(r@));
        }
        r
    }
}

} // verus!
