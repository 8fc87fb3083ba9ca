//! A linter and formatter for prose that mixes Chinese (full-width) and
//! Western (half-width) script: it normalizes punctuation width, unifies
//! quotation styles, and inserts or removes whitespace around letters,
//! punctuation, quotation marks, brackets and inline code, while keeping
//! byte-exact source offsets for its diagnostics.
use vstd::prelude::*;
use vstd::pervasive::VecAdditionalExecFns;

pub mod char_kind;
pub mod config;
pub mod cursor;
pub mod encoding;
pub mod errors;
pub mod ignore;
pub mod laws;
pub mod lexer;
pub mod nodes;
pub mod parser;
pub mod report;
pub mod rules;

use vstd::utf8::{encode_utf8, valid_utf8};

use crate::config::Config;
use crate::encoding::{str_to_utf8, string_from_utf8};
use crate::errors::{errors_view, ErrorView, Span, ZhlintError};
use crate::lexer::{markdown_source, md_items_of, tokenize, tokens_of, MarkupKind};
use crate::nodes::{
    lemma_nodes_view, lemma_views_height_elem, node_view, nodes_view, views_height, Node,
    NodeView, OffsetValue, Space,
};
use crate::parser::{paragraph_result_view, paragraphs_view, spec_parse, Parser, SpecParagraph};
use crate::report::{
    bytes_after_char, bytes_after_paragraphs, bytes_after_space, collect_parse_errors,
    errs_of_char, errs_of_paragraphs, errs_of_space, report_paragraphs_bytes, spec_parse_errors,
};
use crate::rules::{
    fold_rules, lemma_process_children, rules, spec_process_children, spec_process_node,
    spec_run_tokens,
};

verus! {

/// Processes one sibling node list: every group's contents depth-first, then
/// the whole rule battery once at every position.
fn run_tokens(nodes: &mut Vec<Node>, config: &Config, Ghost(h): Ghost<nat>)
    requires
        views_height(nodes_view(old(nodes)@)) <= h,
    ensures
        final(nodes)@.len() == old(nodes)@.len(),
        nodes_view(final(nodes)@) == spec_run_tokens(nodes_view(old(nodes)@), *config),
    decreases h,
{
    let ghost s0 = nodes@;
    let ghost sv = nodes_view(nodes@);
    let ghost cfg = *config;
    proof {
        lemma_nodes_view(s0);
        lemma_process_children(sv, cfg);
    }
    let n = nodes.len();
    let mut i: usize = 0;
    while i < n
        invariant
            i <= n,
            nodes@.len() == n,
            n == s0.len(),
            cfg == *config,
            views_height(sv) <= h,
            sv == nodes_view(s0),
            sv.len() == s0.len(),
            forall|k: int| 0 <= k < s0.len() ==> #[trigger] sv[k] == node_view(s0[k]),
            forall|k: int| i <= k < n ==> nodes@[k] == s0[k],
            forall|k: int|
                0 <= k < i ==> node_view(#[trigger] nodes@[k]) == spec_process_node(sv[k], cfg),
        decreases n - i,
    {
        let is_group = matches!(&nodes[i], Node::Group { .. });
        if is_group {
            let mut tmp = Node::Event {
                value: MarkupKind::Other,
                offset: Span { start: 0, end: 0 },
                space_after: OffsetValue {
                    original: Space::Empty,
                    modified: None,
                    offset: Span { start: 0, end: 0 },
                },
            };
            nodes.set_and_swap(i, &mut tmp);
            match tmp {
                Node::Group { start, inner_space_before, nodes: children, end, space_after } => {
                    let mut children = children;
                    proof {
                        lemma_views_height_elem(sv, i as int);
                        assert(view_height_of_group_children(sv[i as int], nodes_view(children@)));
                    }
                    run_tokens(&mut children, config, Ghost((h - 1) as nat));
                    nodes.set(
                        i,
                        Node::Group { start, inner_space_before, nodes: children, end, space_after },
                    );
                },
                _ => {
                    proof {
                        assert(false);
                    }
                    nodes.set(i, tmp);
                },
            }
        }
        i = i + 1;
    }
    let ghost p = spec_process_children(sv, cfg);
    proof {
        lemma_nodes_view(nodes@);
        assert(nodes_view(nodes@) =~= p);
    }
    let ghost s1v = nodes_view(nodes@);
    let mut j: usize = 0;
    while j < n
        invariant
            j <= n,
            nodes@.len() == n,
            cfg == *config,
            fold_rules(s1v, 0, n as int, cfg) == fold_rules(
                nodes_view(nodes@),
                j as int,
                n as int,
                cfg,
            ),
        decreases n - j,
    {
        rules(nodes, j, config);
        j = j + 1;
    }
    proof {
        assert(p.len() == n);
        assert(nodes_view(nodes@) == spec_run_tokens(sv, cfg));
    }
}

/// The children of a viewed group have strictly smaller height.
pub open spec fn view_height_of_group_children(g: NodeView, ch: Seq<NodeView>) -> bool {
    match g {
        NodeView::Group { nodes, .. } => nodes == ch && crate::nodes::view_height(g)
            == 1 + views_height(ch),
        _ => false,
    }
}

/// One paragraph result after the rule engine has processed its tree.
pub open spec fn process_paragraph(p: SpecParagraph, cfg: Config) -> SpecParagraph {
    match p {
        SpecParagraph::Nodes { nodes } => SpecParagraph::Nodes {
            nodes: spec_run_tokens(nodes, cfg),
        },
        SpecParagraph::Fail { .. } => p,
    }
}

/// All paragraph results after processing.
pub open spec fn processed_paragraphs(ps: Seq<SpecParagraph>, cfg: Config) -> Seq<SpecParagraph>
    decreases ps.len(),
{
    if ps.len() == 0 {
        Seq::empty()
    } else {
        seq![process_paragraph(ps[0], cfg)] + processed_paragraphs(
            ps.subrange(1, ps.len() as int),
            cfg,
        )
    }
}

/// `processed_paragraphs` maps `process_paragraph` over the list.
pub proof fn lemma_processed_paragraphs(ps: Seq<SpecParagraph>, cfg: Config)
    ensures
        processed_paragraphs(ps, cfg).len() == ps.len(),
        forall|k: int|
            0 <= k < ps.len() ==> #[trigger] processed_paragraphs(ps, cfg)[k]
                == process_paragraph(ps[k], cfg),
    decreases ps.len(),
{
    if ps.len() > 0 {
        lemma_processed_paragraphs(ps.subrange(1, ps.len() as int), cfg);
    }
}

/// The engine's product: the patched text and one diagnostic per parse error
/// and per applied rewrite.
#[derive(Debug)]
pub struct Report {
    /// The source text with every accepted modification applied.
    pub text: String,
    /// The diagnostics: rewrite diagnostics in reverse document order, then
    /// parse errors in document order.
    pub errors: Vec<ZhlintError>,
}

impl Report {
    /// Applies and reports one rewritable character against the text.
    pub fn report_char(&mut self, value: &OffsetValue<char>)
        ensures
            errors_view(final(self).errors@) == errors_view(old(self).errors@) + errs_of_char(
                *value,
            ),
            valid_utf8(bytes_after_char(encode_utf8(old(self).text@), *value)) ==> encode_utf8(
                final(self).text@,
            ) == bytes_after_char(encode_utf8(old(self).text@), *value),
            !valid_utf8(bytes_after_char(encode_utf8(old(self).text@), *value))
                ==> final(self).text@ == old(self).text@,
    {
        let bytes = str_to_utf8(self.text.as_str());
        let spliced = crate::report::report_char_bytes(bytes, value, &mut self.errors);
        match string_from_utf8(spliced) {
            Some(t) => {
                proof {
                    vstd::utf8::encode_utf8_valid_utf8(t@);
                }
                self.text = t;
            },
            None => {},
        }
    }

    /// Applies and reports one rewritable whitespace run against the text.
    pub fn report_space(&mut self, value: &OffsetValue<Space>)
        ensures
            errors_view(final(self).errors@) == errors_view(old(self).errors@) + errs_of_space(
                value@,
            ),
            valid_utf8(bytes_after_space(encode_utf8(old(self).text@), value@)) ==> encode_utf8(
                final(self).text@,
            ) == bytes_after_space(encode_utf8(old(self).text@), value@),
            !valid_utf8(bytes_after_space(encode_utf8(old(self).text@), value@))
                ==> final(self).text@ == old(self).text@,
    {
        let bytes = str_to_utf8(self.text.as_str());
        let spliced = crate::report::report_space_bytes(bytes, value, &mut self.errors);
        match string_from_utf8(spliced) {
            Some(t) => {
                proof {
                    vstd::utf8::encode_utf8_valid_utf8(t@);
                }
                self.text = t;
            },
            None => {},
        }
    }
}

/// Lints and formats one text: parses it into paragraphs, runs the rule
/// battery over every node, applies the accepted modifications to the text,
/// and reports one diagnostic per parse error and per rewrite.
pub fn run(text: &str, config: &Config) -> (r: Report)
    ensures
        ({
            let toks = tokens_of(md_items_of(text@));
            let processed = processed_paragraphs(spec_parse(toks, 0), *config);
            let patched = bytes_after_paragraphs(encode_utf8(text@), processed);
            &&& errors_view(r.errors@) == errs_of_paragraphs(processed) + spec_parse_errors(
                processed,
            )
            &&& valid_utf8(patched) ==> encode_utf8(r.text@) == patched
            &&& !valid_utf8(patched) ==> r.text@ == text@
        }),
{
    let bytes = str_to_utf8(text);
    let items = markdown_source(text);
    let tokens = tokenize(&items);
    let parser = Parser::new(tokens);
    let mut paragraphs = parser.parse();
    let ghost ps0 = paragraphs_view(paragraphs@);
    let ghost cfg = *config;
    proof {
        lemma_processed_paragraphs(ps0, cfg);
    }
    let pcount = paragraphs.len();
    let mut i: usize = 0;
    while i < pcount
        invariant
            i <= pcount,
            paragraphs@.len() == pcount,
            ps0.len() == pcount,
            cfg == *config,
            forall|k: int|
                0 <= k < i ==> paragraph_result_view(#[trigger] paragraphs@[k])
                    == process_paragraph(ps0[k], cfg),
            forall|k: int|
                i <= k < pcount ==> paragraph_result_view(#[trigger] paragraphs@[k]) == ps0[k],
        decreases pcount - i,
    {
        match &mut paragraphs[i] {
            Ok(p) => {
                let ghost h = views_height(nodes_view(p.0@));
                run_tokens(&mut p.0, config, Ghost(h));
            },
            Err(_) => {},
        }
        i = i + 1;
    }
    let ghost processed = processed_paragraphs(ps0, cfg);
    proof {
        assert(paragraphs_view(paragraphs@) =~= processed);
    }
    let mut errors: Vec<ZhlintError> = Vec::new();
    let out_bytes = report_paragraphs_bytes(&paragraphs, pcount, bytes, &mut errors);
    proof {
        assert(paragraphs_view(paragraphs@).subrange(0, pcount as int) =~= processed);
        assert(errors_view(errors@) =~= Seq::<ErrorView>::empty() + errs_of_paragraphs(processed));
        assert(errors_view(errors@) =~= errs_of_paragraphs(processed));
    }
    collect_parse_errors(&paragraphs, &mut errors);
    let out_text = match string_from_utf8(out_bytes) {
        Some(t) => {
            proof {
                vstd::utf8::encode_utf8_valid_utf8(t@);
            }
            t
        },
        None => {
            let mut t = String::new();
            t.append(text);
            proof {
                assert(t@ =~= text@);
            }
            t
        },
    };
    Report { text: out_text, errors }
}

} // verus!
