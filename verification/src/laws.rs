//! Statements the library holds to as a whole, proved against the rule and
//! reporter specifications.
use vstd::prelude::*;

use crate::char_kind::{
    is_chinese_left_quotation_char, is_chinese_right_quotation_char, is_western_quotation_char,
    kind_of,
};
use crate::config::{Config, ZhScript};
use crate::errors::ErrorView;
use crate::lexer::Token;
use crate::nodes::{view_revert_space, view_set_space, NodeView, OffsetValue};
use crate::parser::{char_of, spec_parse, spec_parse_node, spec_parse_paragraph, SpecParagraph, SpecParsed};
use crate::report::{
    bytes_after_char, bytes_after_node, bytes_after_nodes, bytes_after_paragraphs,
    bytes_after_space, errs_of_char, errs_of_node, errs_of_nodes, errs_of_paragraphs,
    spec_parse_errors, spec_splice,
};
use vstd::utf8::{encode_scalar, encode_utf8};
use crate::rules::punctuation_unification::{spec_rule as unify_rule, unify_delim};
use crate::rules::space_bracket::spec_rule as bracket_rule;
use crate::rules::{fold_rules, lemma_process_children, spec_process_children, spec_rules, spec_run_tokens};

verus! {

/// Whether a character is a corner-bracket quotation mark.
pub open spec fn is_corner_quote(c: char) -> bool {
    c == '\u{300C}' || c == '\u{300D}' || c == '\u{300E}' || c == '\u{300F}'
}

/// Unifying a corner-bracket quotation mark to the curly style and back
/// returns its effective value.
pub proof fn lemma_corner_round_trip(v: OffsetValue<char>)
    requires
        is_corner_quote(v.eff()),
    ensures
        unify_delim(unify_delim(v, Some(ZhScript::Simplified)), Some(ZhScript::Traditional)).eff()
            == v.eff(),
{
}

/// Toggling the script preference undoes unification: running the
/// quotation-style rule with the curly preference and then with the
/// corner-bracket preference leaves a corner-quoted group with its original
/// effective delimiters, and everything else in the list untouched.
pub proof fn unification_round_trip(s: Seq<NodeView>, i: int, simp: Config, trad: Config)
    requires
        0 <= i < s.len(),
        simp.unified_punctuation == Some(ZhScript::Simplified),
        trad.unified_punctuation == Some(ZhScript::Traditional),
        s[i] matches NodeView::Group { start, end, .. } && is_corner_quote(start.eff())
            && is_corner_quote(end.eff()),
    ensures
        ({
            let r = unify_rule(unify_rule(s, i, simp), i, trad);
            &&& r.len() == s.len()
            &&& forall|k: int| 0 <= k < s.len() && k != i ==> r[k] == s[k]
            &&& match (s[i], r[i]) {
                (
                    NodeView::Group { start: s0, inner_space_before: i0, nodes: n0, end: e0, space_after: a0 },
                    NodeView::Group { start: s2, inner_space_before: i2, nodes: n2, end: e2, space_after: a2 },
                ) => s2.eff() == s0.eff() && e2.eff() == e0.eff() && i2 == i0 && n2 == n0 && a2
                    == a0,
                _ => false,
            }
        }),
{
    let s1 = unify_rule(s, i, simp);
    let r = unify_rule(s1, i, trad);
    match s[i] {
        NodeView::Group { start, end, .. } => {
            lemma_corner_round_trip(start);
            lemma_corner_round_trip(end);
        },
        _ => {},
    }
    assert(r.len() == s.len());
}

/// A sibling list whose nodes are flat (no quotation groups) and whose atomic
/// characters are not punctuation by their source value, with no character
/// rewrite proposed anywhere.
pub open spec fn plain_flat(s: Seq<NodeView>) -> bool {
    forall|k: int|
        0 <= k < s.len() ==> match #[trigger] s[k] {
            NodeView::Group { .. } => false,
            NodeView::Char { value, .. } => !kind_of(value.original).spec_is_punctuation()
                && value.modified is None,
            _ => true,
        }
}

/// Proposing a whitespace change keeps a list plain and flat.
proof fn lemma_plain_flat_set_space(s: Seq<NodeView>, i: int, m: Seq<char>)
    requires
        plain_flat(s),
        0 <= i < s.len(),
    ensures
        plain_flat(view_set_space(s, i, m)),
{
    let r = view_set_space(s, i, m);
    assert forall|k: int| 0 <= k < r.len() implies match #[trigger] r[k] {
        NodeView::Group { .. } => false,
        NodeView::Char { value, .. } => !kind_of(value.original).spec_is_punctuation()
            && value.modified is None,
        _ => true,
    } by {
        if k != i {
            assert(r[k] == s[k]);
        }
    }
}

/// Clearing a whitespace proposal keeps a list plain and flat.
proof fn lemma_plain_flat_revert_space(s: Seq<NodeView>, i: int)
    requires
        plain_flat(s),
        0 <= i < s.len(),
    ensures
        plain_flat(view_revert_space(s, i)),
{
    let r = view_revert_space(s, i);
    assert forall|k: int| 0 <= k < r.len() implies match #[trigger] r[k] {
        NodeView::Group { .. } => false,
        NodeView::Char { value, .. } => !kind_of(value.original).spec_is_punctuation()
            && value.modified is None,
        _ => true,
    } by {
        if k != i {
            assert(r[k] == s[k]);
        }
    }
}

/// On a plain flat list the whole rule battery proposes only whitespace
/// changes: the result is again plain and flat, so no rule ever rewrites a
/// character of text that holds no punctuation and no quotation.
pub proof fn rules_touch_only_spaces(s: Seq<NodeView>, i: int, cfg: Config)
    requires
        plain_flat(s),
        0 <= i < s.len(),
    ensures
        plain_flat(spec_rules(s, i, cfg)),
        spec_rules(s, i, cfg).len() == s.len(),
{
    let s1 = crate::rules::punctuation_width::spec_rule(s, i, cfg);
    assert(s1 == s);
    let s2 = crate::rules::punctuation_unification::spec_rule(s1, i, cfg);
    assert(s2 == s1);
    let s3 = crate::rules::case_abbrs::spec_rule(s2, i, cfg);
    assert(plain_flat(s3) && s3.len() == s.len()) by {
        match s2[i] {
            NodeView::Char { value, space_after } => {
                if s3 != s2 {
                    assert(s3 == s2.update(
                        i,
                        NodeView::Char {
                            value: OffsetValue { modified: None, ..value },
                            space_after,
                        },
                    ));
                    assert forall|k: int| 0 <= k < s3.len() implies match #[trigger] s3[k] {
                        NodeView::Group { .. } => false,
                        NodeView::Char { value, .. } => !kind_of(
                            value.original,
                        ).spec_is_punctuation() && value.modified is None,
                        _ => true,
                    } by {
                        if k != i {
                            assert(s3[k] == s2[k]);
                        }
                    }
                }
            },
            _ => {},
        }
    }
    let s4 = crate::rules::space_hyper_mark::spec_rule(s3, i, cfg);
    assert(plain_flat(s4) && s4.len() == s3.len()) by {
        if s4 != s3 {
            lemma_plain_flat_set_space(s3, i, Seq::empty());
        }
    }
    let s5 = crate::rules::space_code::spec_rule(s4, i, cfg);
    assert(plain_flat(s5) && s5.len() == s4.len()) by {
        lemma_space_only_code(s4, i, cfg);
    }
    let s6 = crate::rules::space_letter::spec_rule(s5, i, cfg);
    assert(plain_flat(s6) && s6.len() == s5.len()) by {
        lemma_space_only_letter(s5, i, cfg);
    }
    let s7 = crate::rules::space_punctuation::spec_rule(s6, i, cfg);
    assert(s7 == s6);
    let s8 = crate::rules::space_quotation::spec_rule(s7, i, cfg);
    assert(s8 == s7);
    let s9 = crate::rules::space_bracket::spec_rule(s8, i, cfg);
    assert(s9 == s8);
    let s10 = crate::rules::case_zh_units::spec_rule(s9, i, cfg);
    assert(plain_flat(s10) && s10.len() == s9.len()) by {
        lemma_space_only_units(s9, i, cfg);
    }
}

/// The code-spacing rule keeps a plain flat list plain and flat.
proof fn lemma_space_only_code(s: Seq<NodeView>, i: int, cfg: Config)
    requires
        plain_flat(s),
        0 <= i < s.len(),
    ensures
        plain_flat(crate::rules::space_code::spec_rule(s, i, cfg)),
        crate::rules::space_code::spec_rule(s, i, cfg).len() == s.len(),
{
    match cfg.space_outside_code {
        None => {},
        Some(one) => {
            let m = if one {
                seq![' ']
            } else {
                Seq::<char>::empty()
            };
            if s[i].is_code() {
                let s1 = match crate::cursor::before_visible_idx(s, i) {
                    Some(bi) => {
                        lemma_before_visible_in_range(s, i);
                        lemma_plain_flat_set_space(s, bi, m);
                        view_set_space(s, bi, m)
                    },
                    None => s,
                };
                match crate::cursor::after_visible_idx(s1, i) {
                    Some(ai) => {
                        lemma_after_visible_in_range(s1, i);
                        lemma_plain_flat_set_space(s1, i, m);
                    },
                    None => {},
                }
            }
        },
    }
}

/// The letter-spacing rule keeps a plain flat list plain and flat.
proof fn lemma_space_only_letter(s: Seq<NodeView>, i: int, cfg: Config)
    requires
        plain_flat(s),
        0 <= i < s.len(),
    ensures
        plain_flat(crate::rules::space_letter::spec_rule(s, i, cfg)),
        crate::rules::space_letter::spec_rule(s, i, cfg).len() == s.len(),
{
    match crate::cursor::after_visible_idx(s, i) {
        None => {},
        Some(j) => {
            lemma_plain_flat_set_space(s, i, seq![' ']);
            lemma_plain_flat_set_space(s, i, Seq::empty());
        },
    }
}

/// The unit-exception rule keeps a plain flat list plain and flat.
proof fn lemma_space_only_units(s: Seq<NodeView>, i: int, cfg: Config)
    requires
        plain_flat(s),
        0 <= i < s.len(),
    ensures
        plain_flat(crate::rules::case_zh_units::spec_rule(s, i, cfg)),
        crate::rules::case_zh_units::spec_rule(s, i, cfg).len() == s.len(),
{
    match s[i] {
        NodeView::HalfwidthContent { .. } => {
            match crate::cursor::after_visible_idx(s, i) {
                Some(j) => {
                    let s1 = match crate::cursor::before_visible_idx(s, i) {
                        Some(b) => {
                            lemma_before_visible_in_range(s, i);
                            lemma_plain_flat_revert_space(s, b);
                            view_revert_space(s, b)
                        },
                        None => s,
                    };
                    lemma_plain_flat_revert_space(s1, i);
                },
                None => {},
            }
        },
        _ => {},
    }
}

/// A visible neighbor found before `i` lies inside the list.
proof fn lemma_before_visible_in_range(s: Seq<NodeView>, i: int)
    requires
        0 <= i <= s.len(),
    ensures
        match crate::cursor::before_visible_idx(s, i) {
            Some(b) => 0 <= b < i,
            None => true,
        },
    decreases i,
{
    if i > 0 && s[i - 1].is_wrapper() {
        lemma_before_visible_in_range(s, i - 1);
    }
}

/// A visible neighbor found after `i` lies inside the list.
proof fn lemma_after_visible_in_range(s: Seq<NodeView>, i: int)
    requires
        0 <= i,
    ensures
        match crate::cursor::after_visible_idx(s, i) {
            Some(a) => i < a < s.len(),
            None => true,
        },
    decreases s.len() - i,
{
    if i + 1 < s.len() && s[i + 1].is_wrapper() {
        lemma_after_visible_in_range(s, i + 1);
    }
}

/// On a plain flat list every diagnostic the reporter emits is a whitespace
/// diagnostic: text holding no punctuation and no quotation gets at most
/// whitespace changes.
pub proof fn plain_text_gets_space_diagnostics(s: Seq<NodeView>)
    requires
        plain_flat(s),
    ensures
        forall|k: int|
            0 <= k < errs_of_nodes(s).len() ==> #[trigger] errs_of_nodes(s)[k] is SpaceError,
    decreases s.len(),
{
    if s.len() > 0 {
        let last = s[s.len() - 1];
        let front = s.subrange(0, s.len() - 1);
        assert(plain_flat(front)) by {
            assert forall|k: int| 0 <= k < front.len() implies match #[trigger] front[k] {
                NodeView::Group { .. } => false,
                NodeView::Char { value, .. } => !kind_of(value.original).spec_is_punctuation()
                    && value.modified is None,
                _ => true,
            } by {
                assert(front[k] == s[k]);
            }
        }
        plain_text_gets_space_diagnostics(front);
        assert(match last {
            NodeView::Char { value, .. } => value.modified is None,
            NodeView::Group { .. } => false,
            _ => true,
        });
        assert forall|k: int|
            0 <= k < crate::report::errs_of_node(last).len() implies #[trigger] crate::report::errs_of_node(
            last,
        )[k] is SpaceError by {
            match last {
                NodeView::Char { value, space_after } => {
                    assert(errs_of_char(value) =~= Seq::<ErrorView>::empty());
                },
                _ => {},
            }
        }
    }
}

/// Whether no rewrite is proposed anywhere in a viewed node.
pub open spec fn view_untouched(n: NodeView) -> bool
    decreases n, 0int,
{
    match n {
        NodeView::Char { value, space_after } => value.modified is None && space_after.modified
            is None,
        NodeView::HalfwidthContent { space_after, .. } => space_after.modified is None,
        NodeView::FullwidthContent { space_after, .. } => space_after.modified is None,
        NodeView::Event { space_after, .. } => space_after.modified is None,
        NodeView::Group { start, inner_space_before, nodes, end, space_after } => start.modified
            is None && inner_space_before.modified is None && views_untouched(nodes) && end.modified
            is None && space_after.modified is None,
    }
}

/// Whether no rewrite is proposed anywhere in a viewed node list.
pub open spec fn views_untouched(s: Seq<NodeView>) -> bool
    decreases s, 1int,
{
    if s.len() == 0 {
        true
    } else {
        view_untouched(s[s.len() - 1]) && views_untouched(s.subrange(0, s.len() - 1))
    }
}

/// A tree without proposals reports nothing and leaves the text unchanged:
/// the reporter's output is exactly the recorded proposals and nothing more.
pub proof fn untouched_tree_reports_nothing(b: Seq<u8>, s: Seq<NodeView>)
    requires
        views_untouched(s),
    ensures
        bytes_after_nodes(b, s) == b,
        errs_of_nodes(s) == Seq::<ErrorView>::empty(),
    decreases s, 1int,
{
    if s.len() > 0 {
        let last = s[s.len() - 1];
        untouched_node_reports_nothing(b, last);
        untouched_tree_reports_nothing(
            crate::report::bytes_after_node(b, last),
            s.subrange(0, s.len() - 1),
        );
        assert(errs_of_nodes(s) =~= Seq::<ErrorView>::empty());
    }
}

/// A node without proposals reports nothing and changes nothing.
proof fn untouched_node_reports_nothing(b: Seq<u8>, n: NodeView)
    requires
        view_untouched(n),
    ensures
        crate::report::bytes_after_node(b, n) == b,
        crate::report::errs_of_node(n) == Seq::<ErrorView>::empty(),
    decreases n, 0int,
{
    match n {
        NodeView::Group { start, inner_space_before, nodes, end, space_after } => {
            untouched_tree_reports_nothing(b, nodes);
            assert(crate::report::errs_of_node(n) =~= Seq::<ErrorView>::empty());
        },
        NodeView::Char { value, space_after } => {
            assert(crate::report::errs_of_node(n) =~= Seq::<ErrorView>::empty());
        },
        _ => {
            assert(crate::report::errs_of_node(n) =~= Seq::<ErrorView>::empty());
        },
    }
}

/// Every position of the rule battery keeps a plain flat list plain and flat.
proof fn lemma_fold_rules_plain(s: Seq<NodeView>, i: int, n: int, cfg: Config)
    requires
        plain_flat(s),
        s.len() == n,
        0 <= i <= n,
    ensures
        plain_flat(fold_rules(s, i, n, cfg)),
        fold_rules(s, i, n, cfg).len() == n,
    decreases n - i,
{
    if i < n {
        rules_touch_only_spaces(s, i, cfg);
        lemma_fold_rules_plain(spec_rules(s, i, cfg), i + 1, n, cfg);
    }
}

/// One whole engine pass keeps a plain flat list plain and flat: on text
/// holding no punctuation and no quotation the engine proposes only
/// whitespace changes.
pub proof fn engine_pass_touches_only_spaces(s: Seq<NodeView>, cfg: Config)
    requires
        plain_flat(s),
    ensures
        plain_flat(spec_run_tokens(s, cfg)),
{
    let p = spec_process_children(s, cfg);
    lemma_process_children(s, cfg);
    assert(p =~= s);
    lemma_fold_rules_plain(p, 0, p.len() as int, cfg);
}

/// A character that the engine can never rewrite: not punctuation by its
/// kind, and in none of the quotation tables.
pub open spec fn plain_char(c: char) -> bool {
    &&& !kind_of(c).spec_is_punctuation()
    &&& !is_chinese_left_quotation_char(c)
    &&& !is_chinese_right_quotation_char(c)
    &&& !is_western_quotation_char(c)
}

/// Whether every character token in `[i, bound)` is plain.
pub open spec fn plain_tokens(toks: Seq<Token>, i: int, bound: int) -> bool {
    forall|k: int|
        i <= k < bound ==> (#[trigger] toks[k] is Char ==> plain_char(char_of(toks[k])))
}

/// Whether a viewed node is flat and plain.
pub open spec fn plain_node(n: NodeView) -> bool {
    match n {
        NodeView::Group { .. } => false,
        NodeView::Char { value, .. } => !kind_of(value.original).spec_is_punctuation()
            && value.modified is None,
        _ => true,
    }
}

/// Parsing one node of plain text yields a plain flat node; it never fails.
proof fn lemma_parse_node_plain(toks: Seq<Token>, i: int, bound: int)
    requires
        0 <= i < bound <= toks.len(),
        plain_tokens(toks, i, bound),
    ensures
        match spec_parse_node(toks, i, bound) {
            SpecParsed::Node { node, next } => plain_node(node),
            SpecParsed::Fail { .. } => false,
        },
{
    assert(toks[i] is Char ==> plain_char(char_of(toks[i])));
}

/// Parsing a paragraph of plain text yields a plain flat node list; it never
/// fails.
proof fn lemma_parse_paragraph_plain(toks: Seq<Token>, i: int, bound: int)
    requires
        0 <= i <= bound <= toks.len(),
        plain_tokens(toks, i, bound),
    ensures
        match spec_parse_paragraph(toks, i, bound) {
            SpecParagraph::Nodes { nodes } => plain_flat(nodes),
            SpecParagraph::Fail { .. } => false,
        },
    decreases bound - i,
{
    if i < bound {
        lemma_parse_node_plain(toks, i, bound);
        match spec_parse_node(toks, i, bound) {
            SpecParsed::Node { node, next } => {
                let j = if next <= i || next > bound {
                    i + 1
                } else {
                    next
                };
                lemma_parse_paragraph_plain(toks, j, bound);
                match spec_parse_paragraph(toks, j, bound) {
                    SpecParagraph::Nodes { nodes } => {
                        let whole = seq![node] + nodes;
                        assert forall|k: int| 0 <= k < whole.len() implies plain_node(
                            #[trigger] whole[k],
                        ) by {
                            if k > 0 {
                                assert(whole[k] == nodes[k - 1]);
                            }
                        }
                        assert(plain_flat(whole)) by {
                            assert(forall|k: int|
                                0 <= k < whole.len() ==> plain_node(#[trigger] whole[k]));
                        }
                    },
                    SpecParagraph::Fail { .. } => {},
                }
            },
            SpecParsed::Fail { .. } => {},
        }
    } else {
        assert(plain_flat(Seq::<NodeView>::empty()));
    }
}

/// Parsing plain text yields only well-parsed, plain flat paragraphs.
pub proof fn plain_text_parses_plain(toks: Seq<Token>, i: int)
    requires
        0 <= i <= toks.len(),
        plain_tokens(toks, i, toks.len() as int),
    ensures
        forall|k: int|
            0 <= k < spec_parse(toks, i).len() ==> match #[trigger] spec_parse(toks, i)[k] {
                SpecParagraph::Nodes { nodes } => plain_flat(nodes),
                SpecParagraph::Fail { .. } => false,
            },
    decreases toks.len() - i,
{
    if i < toks.len() {
        let pe0 = crate::parser::paragraph_end(toks, i);
        let pe = if pe0 < i {
            i
        } else if pe0 > toks.len() {
            toks.len() as int
        } else {
            pe0
        };
        lemma_parse_paragraph_plain(toks, i, pe);
        let next = if pe + 1 > toks.len() {
            toks.len() as int
        } else {
            pe + 1
        };
        plain_text_parses_plain(toks, next);
    }
}

/// On plain text the whole pipeline reports only whitespace diagnostics and
/// no parse errors; with `reported_rewrites_are_the_whole_change` the patched
/// bytes of such text differ from the input only by reported whitespace
/// splices.
pub proof fn plain_text_pipeline_space_only(toks: Seq<Token>, cfg: Config)
    requires
        plain_tokens(toks, 0, toks.len() as int),
    ensures
        ({
            let processed = crate::processed_paragraphs(spec_parse(toks, 0), cfg);
            &&& spec_parse_errors(processed) == Seq::<ErrorView>::empty()
            &&& forall|k: int|
                0 <= k < errs_of_paragraphs(processed).len()
                    ==> #[trigger] errs_of_paragraphs(processed)[k] is SpaceError
        }),
{
    let ps = spec_parse(toks, 0);
    plain_text_parses_plain(toks, 0);
    crate::lemma_processed_paragraphs(ps, cfg);
    let processed = crate::processed_paragraphs(ps, cfg);
    assert forall|k: int| 0 <= k < processed.len() implies match #[trigger] processed[k] {
        SpecParagraph::Nodes { nodes } => plain_flat(nodes),
        SpecParagraph::Fail { .. } => false,
    } by {
        assert(processed[k] == crate::process_paragraph(ps[k], cfg));
        match ps[k] {
            SpecParagraph::Nodes { nodes } => {
                engine_pass_touches_only_spaces(nodes, cfg);
            },
            SpecParagraph::Fail { .. } => {},
        }
    }
    lemma_parse_errors_empty(processed);
    lemma_paragraph_errors_spaces(processed);
}

/// Well-parsed paragraphs carry no parse errors.
proof fn lemma_parse_errors_empty(ps: Seq<SpecParagraph>)
    requires
        forall|k: int| 0 <= k < ps.len() ==> !(#[trigger] ps[k] is Fail),
    ensures
        spec_parse_errors(ps) == Seq::<ErrorView>::empty(),
    decreases ps.len(),
{
    if ps.len() > 0 {
        let front = ps.subrange(0, ps.len() - 1);
        lemma_parse_errors_empty(front);
        assert(spec_parse_errors(ps) =~= Seq::<ErrorView>::empty());
    }
}

/// Plain flat paragraphs yield only whitespace diagnostics.
proof fn lemma_paragraph_errors_spaces(ps: Seq<SpecParagraph>)
    requires
        forall|k: int|
            0 <= k < ps.len() ==> match #[trigger] ps[k] {
                SpecParagraph::Nodes { nodes } => plain_flat(nodes),
                SpecParagraph::Fail { .. } => false,
            },
    ensures
        forall|k: int|
            0 <= k < errs_of_paragraphs(ps).len() ==> #[trigger] errs_of_paragraphs(ps)[k]
                is SpaceError,
    decreases ps.len(),
{
    if ps.len() > 0 {
        let front = ps.subrange(0, ps.len() - 1);
        lemma_paragraph_errors_spaces(front);
        match ps[ps.len() - 1] {
            SpecParagraph::Nodes { nodes } => {
                plain_text_gets_space_diagnostics(nodes);
            },
            SpecParagraph::Fail { .. } => {},
        }
    }
}

/// A half-width bracket standing flush against half-width content on both
/// sides is exempt from bracket spacing: the rule leaves the whole list
/// unchanged, under every bracket-spacing policy.
pub proof fn flush_halfwidth_bracket_is_exempt(s: Seq<NodeView>, i: int, cfg: Config)
    requires
        1 <= i && i + 1 < s.len(),
        s[i] matches NodeView::Char { value, space_after } && kind_of(
            value.original,
        ).spec_is_bracket_punctuation() && !crate::char_kind::spec_is_wide_or_chinese(
            value.original,
        ) && value.modified is None && space_after.original.len() == 0 && space_after.modified
            is None,
        s[i - 1] matches NodeView::HalfwidthContent { space_after, .. } && space_after.original.len()
            == 0 && space_after.modified is None,
        s[i + 1] matches NodeView::HalfwidthContent { space_after, .. } && space_after.original.len()
            == 0,
    ensures
        bracket_rule(s, i, cfg) == s,
{
    match s[i] {
        NodeView::Char { value, space_after } => {
            let left = kind_of(value.original).spec_is_left_punctuation();
            let s1 = crate::rules::space_bracket::spec_inside(
                s,
                i,
                left,
                cfg.no_space_inside_bracket,
            );
            assert(s1 == s) by {
                if cfg.no_space_inside_bracket {
                    if left {
                        assert(s[i].space_after().original =~= Seq::<char>::empty());
                        assert(s[i].with_space_after(
                            crate::nodes::view_space_to_be(s[i].space_after(), Seq::empty()),
                        ) == s[i]);
                        assert(view_set_space(s, i, Seq::empty()) =~= s);
                    } else {
                        assert(s[i - 1].space_after().original =~= Seq::<char>::empty());
                        assert(s[i - 1].with_space_after(
                            crate::nodes::view_space_to_be(
                                s[i - 1].space_after(),
                                Seq::empty(),
                            ),
                        ) == s[i - 1]);
                        assert(view_set_space(s, i - 1, Seq::empty()) =~= s);
                    }
                }
            }
            assert(crate::cursor::before_visible_idx(s, i) == Some(i - 1));
            assert(crate::cursor::after_visible_idx(s, i) == Some(i + 1));
            assert(crate::rules::space_bracket::spec_should_skip(s1, i, value));
        },
        _ => {},
    }
}

/// One reported rewrite applied to the bytes: a character diagnostic splices
/// the character's encoding, a whitespace diagnostic splices the whitespace
/// text's encoding, and a parse error changes nothing.
pub open spec fn apply_err(b: Seq<u8>, e: ErrorView) -> Seq<u8> {
    match e {
        ErrorView::CharError { modified, offset, .. } => spec_splice(
            b,
            offset,
            encode_scalar(modified as u32),
        ),
        ErrorView::SpaceError { modified, offset, .. } => spec_splice(
            b,
            offset,
            encode_utf8(modified),
        ),
        _ => b,
    }
}

/// A list of reported rewrites applied in order.
pub open spec fn apply_errs(b: Seq<u8>, es: Seq<ErrorView>) -> Seq<u8>
    decreases es.len(),
{
    if es.len() == 0 {
        b
    } else {
        apply_errs(apply_err(b, es[0]), es.skip(1))
    }
}

/// Applying a concatenation applies each part in turn.
proof fn lemma_apply_errs_concat(b: Seq<u8>, e1: Seq<ErrorView>, e2: Seq<ErrorView>)
    ensures
        apply_errs(b, e1 + e2) == apply_errs(apply_errs(b, e1), e2),
    decreases e1.len(),
{
    if e1.len() == 0 {
        assert(e1 + e2 =~= e2);
    } else {
        assert((e1 + e2)[0] == e1[0]);
        assert((e1 + e2).skip(1) =~= e1.skip(1) + e2);
        lemma_apply_errs_concat(apply_err(b, e1[0]), e1.skip(1), e2);
    }
}

/// One character's byte change is its diagnostic applied.
proof fn lemma_char_change_is_reported(b: Seq<u8>, v: OffsetValue<char>)
    ensures
        bytes_after_char(b, v) == apply_errs(b, errs_of_char(v)),
{
    match v.modified {
        Some(m) => {
            let es = errs_of_char(v);
            let x = crate::report::char_err_view(v.original, m, v.offset);
            assert(es.len() == 1);
            assert(es[0] == x);
            assert(apply_err(b, x) == spec_splice(b, v.offset, encode_scalar(m as u32)));
            assert(es.skip(1) =~= Seq::<ErrorView>::empty());
            assert(apply_errs(apply_err(b, x), Seq::<ErrorView>::empty()) == apply_err(b, x));
            assert(apply_errs(b, es) == apply_err(b, x));
        },
        None => {},
    }
}

/// One whitespace run's byte change is its diagnostic applied.
proof fn lemma_space_change_is_reported(b: Seq<u8>, sp: crate::nodes::OffsetSpaceView)
    ensures
        bytes_after_space(b, sp) == apply_errs(b, crate::report::errs_of_space(sp)),
{
    match sp.modified {
        Some(m) => {
            let es = crate::report::errs_of_space(sp);
            let x = crate::report::space_err_view(sp.original, m, sp.offset);
            assert(es.len() == 1);
            assert(es[0] == x);
            assert(apply_err(b, x) == spec_splice(b, sp.offset, encode_utf8(m)));
            assert(es.skip(1) =~= Seq::<ErrorView>::empty());
            assert(apply_errs(apply_err(b, x), Seq::<ErrorView>::empty()) == apply_err(b, x));
            assert(apply_errs(b, es) == apply_err(b, x));
        },
        None => {},
    }
}

/// One node's byte changes are its diagnostics applied in order.
proof fn lemma_node_change_is_reported(b: Seq<u8>, n: NodeView)
    ensures
        bytes_after_node(b, n) == apply_errs(b, errs_of_node(n)),
    decreases n, 0int,
{
    match n {
        NodeView::Char { value, space_after } => {
            lemma_space_change_is_reported(b, space_after);
            lemma_char_change_is_reported(bytes_after_space(b, space_after), value);
            lemma_apply_errs_concat(b, crate::report::errs_of_space(space_after), errs_of_char(value));
        },
        NodeView::HalfwidthContent { space_after, .. } => {
            lemma_space_change_is_reported(b, space_after);
        },
        NodeView::FullwidthContent { space_after, .. } => {
            lemma_space_change_is_reported(b, space_after);
        },
        NodeView::Event { space_after, .. } => {
            lemma_space_change_is_reported(b, space_after);
        },
        NodeView::Group { start, inner_space_before, nodes, end, space_after } => {
            let e1 = crate::report::errs_of_space(space_after);
            let e2 = errs_of_char(end);
            let e3 = errs_of_nodes(nodes);
            let e4 = crate::report::errs_of_space(inner_space_before);
            let e5 = errs_of_char(start);
            let b1 = bytes_after_space(b, space_after);
            let b2 = bytes_after_char(b1, end);
            let b3 = bytes_after_nodes(b2, nodes);
            let b4 = bytes_after_space(b3, inner_space_before);
            lemma_space_change_is_reported(b, space_after);
            lemma_char_change_is_reported(b1, end);
            lemma_nodes_change_is_reported(b2, nodes);
            lemma_space_change_is_reported(b3, inner_space_before);
            lemma_char_change_is_reported(b4, start);
            lemma_apply_errs_concat(b, e1, e2);
            lemma_apply_errs_concat(b, e1 + e2, e3);
            lemma_apply_errs_concat(b, e1 + e2 + e3, e4);
            lemma_apply_errs_concat(b, e1 + e2 + e3 + e4, e5);
        },
    }
}

/// A node list's byte changes are its diagnostics applied in order.
proof fn lemma_nodes_change_is_reported(b: Seq<u8>, s: Seq<NodeView>)
    ensures
        bytes_after_nodes(b, s) == apply_errs(b, errs_of_nodes(s)),
    decreases s, 1int,
{
    if s.len() > 0 {
        let last = s[s.len() - 1];
        lemma_node_change_is_reported(b, last);
        lemma_nodes_change_is_reported(bytes_after_node(b, last), s.subrange(0, s.len() - 1));
        lemma_apply_errs_concat(b, errs_of_node(last), errs_of_nodes(s.subrange(0, s.len() - 1)));
    }
}

/// The patched bytes are exactly the reported rewrites applied in order: the
/// reporter changes nothing it does not report, and reports nothing it does
/// not change. With `plain_text_pipeline_space_only` this gives the byte-level
/// reading of plain text: its output differs from the input only by reported
/// whitespace splices.
pub proof fn reported_rewrites_are_the_whole_change(b: Seq<u8>, ps: Seq<SpecParagraph>)
    ensures
        bytes_after_paragraphs(b, ps) == apply_errs(b, errs_of_paragraphs(ps)),
    decreases ps.len(),
{
    if ps.len() > 0 {
        let front = ps.subrange(0, ps.len() - 1);
        match ps[ps.len() - 1] {
            SpecParagraph::Nodes { nodes } => {
                lemma_nodes_change_is_reported(b, nodes);
                reported_rewrites_are_the_whole_change(bytes_after_nodes(b, nodes), front);
                lemma_apply_errs_concat(b, errs_of_nodes(nodes), errs_of_paragraphs(front));
            },
            SpecParagraph::Fail { .. } => {
                reported_rewrites_are_the_whole_change(b, front);
                assert(Seq::<ErrorView>::empty() + errs_of_paragraphs(front) =~= errs_of_paragraphs(
                    front,
                ));
            },
        }
    }
}

/// A paragraph that failed to parse changes nothing: the reported bytes are
/// those of the other paragraphs alone, and the failed paragraph contributes
/// exactly one more error than the rest.
pub proof fn failed_paragraph_changes_nothing(b: Seq<u8>, ps: Seq<SpecParagraph>, k: int)
    requires
        0 <= k < ps.len(),
        ps[k] is Fail,
    ensures
        crate::report::bytes_after_paragraphs(b, ps) == crate::report::bytes_after_paragraphs(
            b,
            ps.remove(k),
        ),
        spec_parse_errors(ps).len() == spec_parse_errors(ps.remove(k)).len() + 1,
    decreases ps.len(),
{
    let rest = ps.remove(k);
    if k == ps.len() - 1 {
        assert(rest =~= ps.subrange(0, ps.len() - 1));
    } else {
        let front = ps.subrange(0, ps.len() - 1);
        failed_paragraph_changes_nothing(
            match ps[ps.len() - 1] {
                SpecParagraph::Nodes { nodes } => bytes_after_nodes(b, nodes),
                SpecParagraph::Fail { .. } => b,
            },
            front,
            k,
        );
        assert(rest[rest.len() - 1] == ps[ps.len() - 1]);
        assert(rest.subrange(0, rest.len() - 1) =~= front.remove(k));
    }
}

/// A plain and an untouched list stay so when a node is put in front.
proof fn lemma_views_untouched_cons(n: NodeView, rest: Seq<NodeView>)
    requires
        view_untouched(n),
        views_untouched(rest),
    ensures
        views_untouched(seq![n] + rest),
    decreases rest.len(),
{
    let whole = seq![n] + rest;
    assert(whole.len() == rest.len() + 1);
    if rest.len() == 0 {
        assert(whole[0] == n);
        assert(view_untouched(whole[whole.len() - 1]));
        assert(whole.subrange(0, 0) =~= Seq::<NodeView>::empty());
        assert(views_untouched(whole.subrange(0, whole.len() - 1)));
        assert(views_untouched(whole));
    } else {
        assert(whole[whole.len() - 1] == rest[rest.len() - 1]);
        assert(view_untouched(whole[whole.len() - 1]));
        assert(views_untouched(rest.subrange(0, rest.len() - 1)));
        lemma_views_untouched_cons(n, rest.subrange(0, rest.len() - 1));
        assert(whole.subrange(0, whole.len() - 1) =~= seq![n] + rest.subrange(
            0,
            rest.len() - 1,
        ));
        assert(views_untouched(whole.subrange(0, whole.len() - 1)));
        assert(views_untouched(whole));
    }
}

/// The parser records no proposals in a single node.
proof fn lemma_parse_node_untouched(toks: Seq<Token>, i: int, bound: int)
    requires
        0 <= i,
    ensures
        match spec_parse_node(toks, i, bound) {
            SpecParsed::Node { node, .. } => view_untouched(node),
            SpecParsed::Fail { .. } => true,
        },
    decreases bound - i, 0int,
{
    if i < bound {
        match toks[i] {
            Token::Char { value, offset } => {
                let k = kind_of(value);
                if k is LetterHalf || k is LetterFull {
                } else if is_chinese_left_quotation_char(value) {
                    lemma_parse_group_untouched(
                        toks,
                        i + 1,
                        bound,
                        value,
                        offset,
                        crate::char_kind::chinese_quote_closer(value),
                    );
                } else if is_chinese_right_quotation_char(value) {
                } else if is_western_quotation_char(value) && !crate::parser::apostrophe_exception(
                    toks,
                    i,
                ) {
                    lemma_parse_group_untouched(toks, i + 1, bound, value, offset, value);
                }
            },
            Token::Event { .. } => {},
        }
    }
}

/// The parser records no proposals in a group's children.
proof fn lemma_parse_group_items_untouched(toks: Seq<Token>, i: int, bound: int, closer: char)
    requires
        0 <= i,
    ensures
        match crate::parser::spec_group_items(toks, i, bound, closer) {
            crate::parser::SpecParsedItems::Items { nodes, .. } => views_untouched(nodes),
            crate::parser::SpecParsedItems::Fail { .. } => true,
        },
    decreases bound - i, 1int,
{
    if i < bound {
        if toks[i] is Char && crate::parser::char_of(toks[i]) == closer {
            assert(views_untouched(Seq::<NodeView>::empty()));
        } else {
            lemma_parse_node_untouched(toks, i, bound);
            match spec_parse_node(toks, i, bound) {
                SpecParsed::Node { node, next } => {
                    let j = if next <= i || next > bound {
                        i + 1
                    } else {
                        next
                    };
                    lemma_parse_group_items_untouched(toks, j, bound, closer);
                    match crate::parser::spec_group_items(toks, j, bound, closer) {
                        crate::parser::SpecParsedItems::Items { nodes, .. } => {
                            lemma_views_untouched_cons(node, nodes);
                        },
                        crate::parser::SpecParsedItems::Fail { .. } => {},
                    }
                },
                SpecParsed::Fail { .. } => {},
            }
        }
    }
}

/// The parser records no proposals in a whole group.
proof fn lemma_parse_group_untouched(
    toks: Seq<Token>,
    i: int,
    bound: int,
    start_c: char,
    start_off: crate::errors::Span,
    closer: char,
)
    requires
        0 <= i,
    ensures
        match crate::parser::spec_parse_group(toks, i, bound, start_c, start_off, closer) {
            SpecParsed::Node { node, .. } => view_untouched(node),
            SpecParsed::Fail { .. } => true,
        },
    decreases bound - i, 2int,
{
    if i <= bound {
        let j0 = crate::parser::space_end(toks, i, bound);
        let j = if j0 < i {
            i
        } else if j0 > bound {
            bound
        } else {
            j0
        };
        lemma_parse_group_items_untouched(toks, j, bound, closer);
    }
}

/// Parsing alone proposes nothing: reporting a freshly parsed paragraph emits
/// no diagnostic and leaves the text bytes exactly as they were. Every
/// diagnostic of a full run is therefore the rule battery's doing.
pub proof fn parse_alone_changes_nothing(toks: Seq<Token>, i: int, bound: int, b: Seq<u8>)
    requires
        0 <= i,
    ensures
        match spec_parse_paragraph(toks, i, bound) {
            SpecParagraph::Nodes { nodes } => bytes_after_nodes(b, nodes) == b && errs_of_nodes(
                nodes,
            ) == Seq::<ErrorView>::empty(),
            SpecParagraph::Fail { .. } => true,
        },
{
    lemma_parse_paragraph_untouched(toks, i, bound);
    match spec_parse_paragraph(toks, i, bound) {
        SpecParagraph::Nodes { nodes } => {
            untouched_tree_reports_nothing(b, nodes);
        },
        SpecParagraph::Fail { .. } => {},
    }
}

/// The parser records no proposals in a whole paragraph.
proof fn lemma_parse_paragraph_untouched(toks: Seq<Token>, i: int, bound: int)
    requires
        0 <= i,
    ensures
        match spec_parse_paragraph(toks, i, bound) {
            SpecParagraph::Nodes { nodes } => views_untouched(nodes),
            SpecParagraph::Fail { .. } => true,
        },
    decreases bound - i,
{
    if i < bound {
        lemma_parse_node_untouched(toks, i, bound);
        match spec_parse_node(toks, i, bound) {
            SpecParsed::Node { node, next } => {
                let j = if next <= i || next > bound {
                    i + 1
                } else {
                    next
                };
                lemma_parse_paragraph_untouched(toks, j, bound);
                match spec_parse_paragraph(toks, j, bound) {
                    SpecParagraph::Nodes { nodes } => {
                        lemma_views_untouched_cons(node, nodes);
                    },
                    SpecParagraph::Fail { .. } => {},
                }
            },
            SpecParsed::Fail { .. } => {},
        }
    } else {
        assert(views_untouched(Seq::<NodeView>::empty()));
    }
}

} // verus!
