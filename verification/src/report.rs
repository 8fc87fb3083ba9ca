//! The reporting pass: walks the finished tree in reverse order, splices every
//! recorded modification into the UTF-8 bytes of the source (right-to-left,
//! so offsets not yet applied stay valid), and emits one diagnostic per
//! modification.
use vstd::prelude::*;
use vstd::string::StrSliceExecFns;
use vstd::utf8::{encode_scalar, encode_utf8};

use crate::encoding::char_to_utf8;
use crate::errors::{errors_view, ErrorView, Span, ZhlintError};
use crate::nodes::{
    lemma_nodes_view, node_view, nodes_view, Node, NodeView, OffsetSpaceView, OffsetValue,
    ParagraphNodes, Space,
};
use crate::parser::{paragraph_result_view, paragraphs_view, SpecParagraph};

verus! {

broadcast use {
    vstd::std_specs::vec::axiom_vec_index_decreases,
    vstd::seq::axiom_seq_index_decreases,
    vstd::seq::axiom_seq_subrange_decreases,
};

/// Replaces the byte range `offset` with `repl`; a range outside the text
/// leaves it unchanged.
pub open spec fn spec_splice(b: Seq<u8>, offset: Span, repl: Seq<u8>) -> Seq<u8> {
    if offset.start <= offset.end && offset.end <= b.len() {
        b.take(offset.start as int) + repl + b.skip(offset.end as int)
    } else {
        b
    }
}

/// The bytes after applying one rewritable character.
pub open spec fn bytes_after_char(b: Seq<u8>, v: OffsetValue<char>) -> Seq<u8> {
    match v.modified {
        Some(m) => spec_splice(b, v.offset, encode_scalar(m as u32)),
        None => b,
    }
}

/// The diagnostic view of one character rewrite.
pub open spec fn char_err_view(value: char, modified: char, offset: Span) -> ErrorView {
    ErrorView::CharError { value, modified, offset }
}

/// The diagnostic of one rewritable character.
pub open spec fn errs_of_char(v: OffsetValue<char>) -> Seq<ErrorView> {
    match v.modified {
        Some(m) => seq![char_err_view(v.original, m, v.offset)],
        None => Seq::empty(),
    }
}

/// The bytes after applying one rewritable whitespace run.
pub open spec fn bytes_after_space(b: Seq<u8>, sp: OffsetSpaceView) -> Seq<u8> {
    match sp.modified {
        Some(m) => spec_splice(b, sp.offset, encode_utf8(m)),
        None => b,
    }
}

/// The diagnostic view of one whitespace rewrite.
pub open spec fn space_err_view(value: Seq<char>, modified: Seq<char>, offset: Span) -> ErrorView {
    ErrorView::SpaceError { value, modified, offset }
}

/// The diagnostic of one rewritable whitespace run.
pub open spec fn errs_of_space(sp: OffsetSpaceView) -> Seq<ErrorView> {
    match sp.modified {
        Some(m) => seq![space_err_view(sp.original, m, sp.offset)],
        None => Seq::empty(),
    }
}

/// The bytes after applying one node, parts in reverse source order.
pub open spec fn bytes_after_node(b: Seq<u8>, n: NodeView) -> Seq<u8>
    decreases n, 0int,
{
    match n {
        NodeView::Char { value, space_after } => bytes_after_char(
            bytes_after_space(b, space_after),
            value,
        ),
        NodeView::HalfwidthContent { space_after, .. } => bytes_after_space(b, space_after),
        NodeView::FullwidthContent { space_after, .. } => bytes_after_space(b, space_after),
        NodeView::Event { space_after, .. } => bytes_after_space(b, space_after),
        NodeView::Group { start, inner_space_before, nodes, end, space_after } => bytes_after_char(
            bytes_after_space(
                bytes_after_nodes(bytes_after_char(bytes_after_space(b, space_after), end), nodes),
                inner_space_before,
            ),
            start,
        ),
    }
}

/// The bytes after applying a node list, in reverse order.
pub open spec fn bytes_after_nodes(b: Seq<u8>, s: Seq<NodeView>) -> Seq<u8>
    decreases s, 1int,
{
    if s.len() == 0 {
        b
    } else {
        bytes_after_nodes(bytes_after_node(b, s[s.len() - 1]), s.subrange(0, s.len() - 1))
    }
}

/// The diagnostics of one node, parts in reverse source order.
pub open spec fn errs_of_node(n: NodeView) -> Seq<ErrorView>
    decreases n, 0int,
{
    match n {
        NodeView::Char { value, space_after } => errs_of_space(space_after) + errs_of_char(value),
        NodeView::HalfwidthContent { space_after, .. } => errs_of_space(space_after),
        NodeView::FullwidthContent { space_after, .. } => errs_of_space(space_after),
        NodeView::Event { space_after, .. } => errs_of_space(space_after),
        NodeView::Group { start, inner_space_before, nodes, end, space_after } => errs_of_space(
            space_after,
        ) + errs_of_char(end) + errs_of_nodes(nodes) + errs_of_space(inner_space_before)
            + errs_of_char(start),
    }
}

/// The diagnostics of a node list, in reverse order.
pub open spec fn errs_of_nodes(s: Seq<NodeView>) -> Seq<ErrorView>
    decreases s, 1int,
{
    if s.len() == 0 {
        Seq::empty()
    } else {
        errs_of_node(s[s.len() - 1]) + errs_of_nodes(s.subrange(0, s.len() - 1))
    }
}

/// The bytes after applying all paragraphs, in reverse order; unparsed
/// paragraphs leave the bytes untouched.
pub open spec fn bytes_after_paragraphs(b: Seq<u8>, ps: Seq<SpecParagraph>) -> Seq<u8>
    decreases ps.len(),
{
    if ps.len() == 0 {
        b
    } else {
        bytes_after_paragraphs(
            match ps[ps.len() - 1] {
                SpecParagraph::Nodes { nodes } => bytes_after_nodes(b, nodes),
                SpecParagraph::Fail { .. } => b,
            },
            ps.subrange(0, ps.len() - 1),
        )
    }
}

/// The rewrite diagnostics of all paragraphs, in reverse paragraph order.
pub open spec fn errs_of_paragraphs(ps: Seq<SpecParagraph>) -> Seq<ErrorView>
    decreases ps.len(),
{
    if ps.len() == 0 {
        Seq::empty()
    } else {
        (match ps[ps.len() - 1] {
            SpecParagraph::Nodes { nodes } => errs_of_nodes(nodes),
            SpecParagraph::Fail { .. } => Seq::<ErrorView>::empty(),
        }) + errs_of_paragraphs(ps.subrange(0, ps.len() - 1))
    }
}

/// The parse errors among the paragraph results, in document order.
pub open spec fn spec_parse_errors(ps: Seq<SpecParagraph>) -> Seq<ErrorView>
    decreases ps.len(),
{
    if ps.len() == 0 {
        Seq::empty()
    } else {
        spec_parse_errors(ps.subrange(0, ps.len() - 1)) + (match ps[ps.len() - 1] {
            SpecParagraph::Fail { err } => seq![err],
            SpecParagraph::Nodes { .. } => Seq::<ErrorView>::empty(),
        })
    }
}

/// Replaces the byte range `[start, end)` with `repl`; out-of-range requests
/// leave the bytes unchanged.
pub fn splice_bytes(b: Vec<u8>, start: usize, end: usize, repl: &Vec<u8>) -> (r: Vec<u8>)
    ensures
        r@ == spec_splice(b@, Span { start, end }, repl@),
{
    if !(start <= end && end <= b.len()) {
        return b;
    }
    let mut out: Vec<u8> = Vec::new();
    let mut i: usize = 0;
    while i < start
        invariant
            start <= end <= b@.len(),
            i <= start,
            out@ == b@.take(i as int),
        decreases start - i,
    {
        out.push(b[i]);
        proof {
            assert(out@ =~= b@.take(i as int + 1));
        }
        i = i + 1;
    }
    let mut j: usize = 0;
    while j < repl.len()
        invariant
            start <= end <= b@.len(),
            j <= repl@.len(),
            out@ == b@.take(start as int) + repl@.take(j as int),
        decreases repl@.len() - j,
    {
        out.push(repl[j]);
        proof {
            assert(out@ =~= b@.take(start as int) + repl@.take(j as int + 1));
        }
        j = j + 1;
    }
    let mut k: usize = end;
    while k < b.len()
        invariant
            start <= end <= b@.len(),
            end <= k <= b@.len(),
            out@ == b@.take(start as int) + repl@ + b@.subrange(end as int, k as int),
        decreases b@.len() - k,
    {
        out.push(b[k]);
        proof {
            assert(out@ =~= b@.take(start as int) + repl@ + b@.subrange(end as int, k as int + 1));
        }
        k = k + 1;
    }
    proof {
        assert(repl@.take(0) =~= Seq::<u8>::empty());
        assert(b@.take(start as int) + repl@.take(0) =~= b@.take(start as int));
        assert(b@.subrange(end as int, end as int) =~= Seq::<u8>::empty());
        assert(out@ =~= b@.take(start as int) + repl@ + b@.skip(end as int));
    }
    out
}

/// A copy of a whitespace value with the same text.
fn space_dup(sp: &Space) -> (r: Space)
    ensures
        r.chars() == sp.chars(),
{
    match sp {
        Space::Empty => Space::Empty,
        Space::One => Space::One,
        Space::Literal(x) => {
            let mut t = String::new();
            t.append(x.as_str());
            proof {
                assert(t@ =~= x@);
            }
            Space::Literal(t)
        },
    }
}

/// The UTF-8 bytes of a whitespace value.
fn space_bytes(sp: &Space) -> (r: Vec<u8>)
    ensures
        r@ == encode_utf8(sp.chars()),
{
    match sp {
        Space::Empty => {
            let r: Vec<u8> = Vec::new();
            proof {
                assert(encode_utf8(Space::Empty.chars()) =~= Seq::<u8>::empty());
            }
            r
        },
        Space::One => {
            let r = char_to_utf8(' ');
            proof {
                let one = seq![' '];
                assert(one.drop_first() =~= Seq::<char>::empty());
                assert(encode_utf8(one) =~= encode_scalar(' ' as u32) + encode_utf8(
                    one.drop_first(),
                ));
                assert(encode_utf8(one) =~= encode_scalar(' ' as u32));
            }
            r
        },
        Space::Literal(x) => x.as_str().as_bytes_vec(),
    }
}

/// Appends one diagnostic.
fn push_error(errors: &mut Vec<ZhlintError>, e: ZhlintError)
    ensures
        errors_view(final(errors)@) == errors_view(old(errors)@).push(e@),
{
    errors.push(e);
    proof {
        assert(errors_view(errors@) =~= errors_view(errors@.drop_last()).push(errors@.last()@));
    }
}

/// Pushing one diagnostic appends its view.
proof fn lemma_push_one(e0: Seq<ErrorView>, x: ErrorView)
    ensures
        e0.push(x) == e0 + seq![x],
{
    assert(e0.push(x) =~= e0 + seq![x]);
}

/// Applies and reports one rewritable character.
pub fn report_char_bytes(b: Vec<u8>, v: &OffsetValue<char>, errors: &mut Vec<ZhlintError>) -> (r: Vec<
    u8,
>)
    ensures
        r@ == bytes_after_char(b@, *v),
        errors_view(final(errors)@) == errors_view(old(errors)@) + errs_of_char(*v),
{
    let ghost b0 = b@;
    let ghost evec0 = errors@;
    match &v.modified {
        Some(m) => {
            let mc = *m;
            let repl = char_to_utf8(mc);
            let out = splice_bytes(b, v.offset.start, v.offset.end, &repl);
            let e = ZhlintError::CharError {
                value: v.original_value(),
                modified: mc,
                offset: v.offset,
            };
            let ghost ev = e@;
            push_error(errors, e);
            proof {
                let x = char_err_view(v.original, v.modified->0, v.offset);
                assert(ev == x);
                assert(errs_of_char(*v) =~= seq![x]);
                assert(errors_view(errors@) == errors_view(evec0).push(ev));
                lemma_push_one(errors_view(evec0), x);
                assert(errors_view(errors@) =~= errors_view(evec0) + errs_of_char(*v));
                assert(out@ == bytes_after_char(b0, *v));
            }
            out
        },
        None => {
            proof {
                assert(errors_view(errors@) =~= errors_view(evec0) + Seq::<ErrorView>::empty());
            }
            b
        },
    }
}

/// Applies and reports one rewritable whitespace run.
pub fn report_space_bytes(b: Vec<u8>, v: &OffsetValue<Space>, errors: &mut Vec<ZhlintError>) -> (r:
    Vec<u8>)
    ensures
        r@ == bytes_after_space(b@, v@),
        errors_view(final(errors)@) == errors_view(old(errors)@) + errs_of_space(v@),
{
    let ghost b0 = b@;
    let ghost evec0 = errors@;
    match &v.modified {
        Some(m) => {
            let repl = space_bytes(m);
            let out = splice_bytes(b, v.offset.start, v.offset.end, &repl);
            push_error(
                errors,
                ZhlintError::SpaceError {
                    value: space_dup(&v.original),
                    modified: space_dup(m),
                    offset: v.offset,
                },
            );
            proof {
                lemma_push_one(
                    errors_view(evec0),
                    space_err_view(v@.original, v@.modified->0, v.offset),
                );
            }
            out
        },
        None => {
            proof {
                assert(errors_view(errors@) =~= errors_view(evec0) + Seq::<ErrorView>::empty());
            }
            b
        },
    }
}

/// Applies and reports one node, parts in reverse source order.
#[verifier::rlimit(100)]
fn report_node_bytes(n: &Node, b: Vec<u8>, errors: &mut Vec<ZhlintError>) -> (r: Vec<u8>)
    ensures
        r@ == bytes_after_node(b@, node_view(*n)),
        errors_view(final(errors)@) == errors_view(old(errors)@) + errs_of_node(node_view(*n)),
    decreases *n, 0int,
{
    let ghost b0 = b@;
    let ghost evec0 = errors@;
    match n {
        Node::Char { value, space_after } => {
            proof {
                assert(node_view(*n) == (NodeView::Char {
                    value: *value,
                    space_after: space_after@,
                }));
            }
            let b1 = report_space_bytes(b, space_after, errors);
            let b2 = report_char_bytes(b1, value, errors);
            proof {
                assert(b1@ == bytes_after_space(b0, space_after@));
                assert(b2@ == bytes_after_char(b1@, *value));
                assert(b2@ == bytes_after_node(b0, node_view(*n)));
                assert(errors_view(errors@) =~= errors_view(evec0) + errs_of_node(node_view(*n)));
            }
            b2
        },
        Node::HalfwidthContent { value, offset, space_after } => {
            proof {
                assert(node_view(*n) == (NodeView::HalfwidthContent {
                    value: value@,
                    offset: *offset,
                    space_after: space_after@,
                }));
            }
            report_space_bytes(b, space_after, errors)
        },
        Node::FullwidthContent { value, offset, space_after } => {
            proof {
                assert(node_view(*n) == (NodeView::FullwidthContent {
                    value: value@,
                    offset: *offset,
                    space_after: space_after@,
                }));
            }
            report_space_bytes(b, space_after, errors)
        },
        Node::Event { value, offset, space_after } => {
            proof {
                assert(node_view(*n) == (NodeView::Event {
                    value: *value,
                    offset: *offset,
                    space_after: space_after@,
                }));
            }
            report_space_bytes(b, space_after, errors)
        },
        Node::Group { start, inner_space_before, nodes, end, space_after } => {
            proof {
                assert(node_view(*n) == (NodeView::Group {
                    start: *start,
                    inner_space_before: inner_space_before@,
                    nodes: nodes_view(nodes@),
                    end: *end,
                    space_after: space_after@,
                }));
            }
            let b1 = report_space_bytes(b, space_after, errors);
            let b2 = report_char_bytes(b1, end, errors);
            let b3 = report_nodes_bytes(nodes, nodes.len(), b2, errors);
            let b4 = report_space_bytes(b3, inner_space_before, errors);
            let b5 = report_char_bytes(b4, start, errors);
            proof {
                lemma_nodes_view(nodes@);
                assert(nodes_view(nodes@).subrange(0, nodes_view(nodes@).len() as int)
                    =~= nodes_view(nodes@));
                assert(b1@ == bytes_after_space(b0, space_after@));
                assert(b2@ == bytes_after_char(b1@, *end));
                assert(b3@ == bytes_after_nodes(b2@, nodes_view(nodes@)));
                assert(b4@ == bytes_after_space(b3@, inner_space_before@));
                assert(b5@ == bytes_after_char(b4@, *start));
                assert(b5@ == bytes_after_node(b0, node_view(*n)));
                assert(errors_view(errors@) =~= errors_view(evec0) + errs_of_node(node_view(*n)));
            }
            b5
        },
    }
}

/// Applies and reports the first `k` nodes of a list, in reverse order.
fn report_nodes_bytes(nodes: &Vec<Node>, k: usize, b: Vec<u8>, errors: &mut Vec<ZhlintError>) -> (r:
    Vec<u8>)
    requires
        k <= nodes@.len(),
    ensures
        r@ == bytes_after_nodes(b@, nodes_view(nodes@).subrange(0, k as int)),
        errors_view(final(errors)@) == errors_view(old(errors)@) + errs_of_nodes(
            nodes_view(nodes@).subrange(0, k as int),
        ),
    decreases *nodes, 1int, k,
{
    let ghost b0 = b@;
    let ghost evec0 = errors@;
    let ghost pref = nodes_view(nodes@).subrange(0, k as int);
    proof {
        lemma_nodes_view(nodes@);
    }
    if k == 0 {
        proof {
            assert(errors_view(errors@) =~= errors_view(evec0) + errs_of_nodes(pref));
        }
        return b;
    }
    let b1 = report_node_bytes(&nodes[k - 1], b, errors);
    let b2 = report_nodes_bytes(nodes, k - 1, b1, errors);
    proof {
        assert(pref[pref.len() - 1] == node_view(nodes@[k - 1]));
        assert(pref.subrange(0, pref.len() - 1) =~= nodes_view(nodes@).subrange(0, k as int - 1));
        assert(errors_view(errors@) =~= errors_view(evec0) + errs_of_nodes(pref));
    }
    b2
}

/// Applies and reports the first `k` paragraphs, in reverse order.
pub fn report_paragraphs_bytes(
    ps: &Vec<Result<ParagraphNodes, ZhlintError>>,
    k: usize,
    b: Vec<u8>,
    errors: &mut Vec<ZhlintError>,
) -> (r: Vec<u8>)
    requires
        k <= ps@.len(),
    ensures
        r@ == bytes_after_paragraphs(b@, paragraphs_view(ps@).subrange(0, k as int)),
        errors_view(final(errors)@) == errors_view(old(errors)@) + errs_of_paragraphs(
            paragraphs_view(ps@).subrange(0, k as int),
        ),
    decreases k,
{
    let ghost b0 = b@;
    let ghost evec0 = errors@;
    let ghost pref = paragraphs_view(ps@).subrange(0, k as int);
    if k == 0 {
        proof {
            assert(errors_view(errors@) =~= errors_view(evec0) + errs_of_paragraphs(pref));
        }
        return b;
    }
    let b1 = match &ps[k - 1] {
        Ok(p) => report_nodes_bytes(&p.0, p.0.len(), b, errors),
        Err(_) => b,
    };
    let b2 = report_paragraphs_bytes(ps, k - 1, b1, errors);
    proof {
        assert(pref[pref.len() - 1] == paragraph_result_view(ps@[k - 1]));
        match ps@[k - 1] {
            Ok(p) => {
                lemma_nodes_view(p.0@);
                assert(nodes_view(p.0@).subrange(0, nodes_view(p.0@).len() as int) =~= nodes_view(
                    p.0@,
                ));
            },
            Err(_) => {},
        }
        assert(pref.subrange(0, pref.len() - 1) =~= paragraphs_view(ps@).subrange(0, k as int - 1));
        assert(errors_view(errors@) =~= errors_view(evec0) + errs_of_paragraphs(pref));
    }
    b2
}

/// Collects the parse errors among the paragraph results, in document order.
pub fn collect_parse_errors(
    ps: &Vec<Result<ParagraphNodes, ZhlintError>>,
    errors: &mut Vec<ZhlintError>,
)
    ensures
        errors_view(final(errors)@) == errors_view(old(errors)@) + spec_parse_errors(
            paragraphs_view(ps@),
        ),
{
    let ghost evec0 = errors@;
    let mut i: usize = 0;
    proof {
        assert(paragraphs_view(ps@).subrange(0, 0) =~= Seq::<SpecParagraph>::empty());
        assert(errors_view(errors@) =~= errors_view(evec0) + spec_parse_errors(
            paragraphs_view(ps@).subrange(0, 0),
        ));
    }
    while i < ps.len()
        invariant
            i <= ps@.len(),
            errors_view(errors@) == errors_view(evec0) + spec_parse_errors(
                paragraphs_view(ps@).subrange(0, i as int),
            ),
        decreases ps@.len() - i,
    {
        let ghost prev = paragraphs_view(ps@).subrange(0, i as int);
        let ghost cur = paragraphs_view(ps@).subrange(0, i as int + 1);
        match &ps[i] {
            Ok(_) => {},
            Err(e) => {
                let dup = dup_parse_error(e);
                push_error(errors, dup);
            },
        }
        proof {
            assert(cur.subrange(0, cur.len() - 1) =~= prev);
            assert(cur[cur.len() - 1] == paragraph_result_view(ps@[i as int]));
            assert(errors_view(errors@) =~= errors_view(evec0) + spec_parse_errors(cur));
        }
        i = i + 1;
    }
    proof {
        assert(paragraphs_view(ps@).subrange(0, ps@.len() as int) =~= paragraphs_view(ps@));
    }
}

/// A copy of a parse error with the same view.
fn dup_parse_error(e: &ZhlintError) -> (r: ZhlintError)
    ensures
        r@ == e@,
{
    match e {
        ZhlintError::UnexpectedEnd => ZhlintError::UnexpectedEnd,
        ZhlintError::UnclosedQuotationMark { value, offset } => ZhlintError::UnclosedQuotationMark {
            value: *value,
            offset: *offset,
        },
        ZhlintError::CharError { value, modified, offset } => ZhlintError::CharError {
            value: *value,
            modified: *modified,
            offset: *offset,
        },
        ZhlintError::StringError { value, modified, offset } => {
            let mut v = String::new();
            v.append(value.as_str());
            let mut m = String::new();
            m.append(modified.as_str());
            proof {
                assert(v@ =~= value@);
                assert(m@ =~= modified@);
            }
            ZhlintError::StringError { value: v, modified: m, offset: *offset }
        },
        ZhlintError::SpaceError { value, modified, offset } => ZhlintError::SpaceError {
            value: space_dup(value),
            modified: space_dup(modified),
            offset: *offset,
        },
    }
}

} // verus!
