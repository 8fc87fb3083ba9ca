//! The ordered battery of rewrite rules. Width normalization and script
//! unification run first, so the spacing rules see the final punctuation
//! identity; the exception rules run where they can still revert an earlier
//! decision of the same pass.
use vstd::prelude::*;

use crate::config::Config;
use crate::nodes::{nodes_view, views_height, view_height, Node, NodeView};

pub mod case_abbrs;
pub mod case_zh_units;
pub mod space_bracket;
pub mod punctuation_unification;
pub mod punctuation_width;
pub mod space_code;
pub mod space_hyper_mark;
pub mod space_letter;
pub mod space_punctuation;
pub mod space_quotation;

verus! {

/// One full pass of the rule battery at position `i`, in its fixed order.
pub open spec fn spec_rules(s: Seq<NodeView>, i: int, cfg: Config) -> Seq<NodeView> {
    let s1 = punctuation_width::spec_rule(s, i, cfg);
    let s2 = punctuation_unification::spec_rule(s1, i, cfg);
    let s3 = case_abbrs::spec_rule(s2, i, cfg);
    let s4 = space_hyper_mark::spec_rule(s3, i, cfg);
    let s5 = space_code::spec_rule(s4, i, cfg);
    let s6 = space_letter::spec_rule(s5, i, cfg);
    let s7 = space_punctuation::spec_rule(s6, i, cfg);
    let s8 = space_quotation::spec_rule(s7, i, cfg);
    let s9 = space_bracket::spec_rule(s8, i, cfg);
    case_zh_units::spec_rule(s9, i, cfg)
}

/// Runs every rule once at position `index`.
pub fn rules(nodes: &mut Vec<Node>, index: usize, config: &Config)
    requires
        index < old(nodes)@.len(),
    ensures
        final(nodes)@.len() == old(nodes)@.len(),
        nodes_view(final(nodes)@) == spec_rules(nodes_view(old(nodes)@), index as int, *config),
{
    punctuation_width::rule(nodes, index, config);
    punctuation_unification::rule(nodes, index, config);
    case_abbrs::rule(nodes, index, config);
    space_hyper_mark::rule(nodes, index, config);
    space_code::rule(nodes, index, config);
    space_letter::rule(nodes, index, config);
    space_punctuation::rule(nodes, index, config);
    space_quotation::rule(nodes, index, config);
    space_bracket::rule(nodes, index, config);
    case_zh_units::rule(nodes, index, config);
}

/// The rule battery applied once at every position from `i` up to `n`.
pub open spec fn fold_rules(s: Seq<NodeView>, i: int, n: int, cfg: Config) -> Seq<NodeView>
    decreases n - i,
{
    if i >= n {
        s
    } else {
        fold_rules(spec_rules(s, i, cfg), i + 1, n, cfg)
    }
}

/// One node after its nested group contents are fully rule-processed.
pub open spec fn spec_process_node(n: NodeView, cfg: Config) -> NodeView
    decreases view_height(n), 0int, 0int,
{
    match n {
        NodeView::Group { start, inner_space_before, nodes, end, space_after } => NodeView::Group {
            start,
            inner_space_before,
            nodes: spec_run_tokens(nodes, cfg),
            end,
            space_after,
        },
        _ => n,
    }
}

/// A node list with every group's contents fully rule-processed.
pub open spec fn spec_process_children(s: Seq<NodeView>, cfg: Config) -> Seq<NodeView>
    decreases views_height(s), 0int, s.len(),
{
    if s.len() == 0 {
        Seq::empty()
    } else {
        seq![spec_process_node(s[0], cfg)] + spec_process_children(
            s.subrange(1, s.len() as int),
            cfg,
        )
    }
}

/// One engine pass over a sibling node list: groups' contents are processed
/// depth-first, then the whole rule battery runs once at every position.
pub open spec fn spec_run_tokens(s: Seq<NodeView>, cfg: Config) -> Seq<NodeView>
    decreases views_height(s), 1int, 0int,
{
    let p = spec_process_children(s, cfg);
    fold_rules(p, 0, p.len() as int, cfg)
}

/// `spec_process_children` maps `spec_process_node` over the list.
pub proof fn lemma_process_children(s: Seq<NodeView>, cfg: Config)
    ensures
        spec_process_children(s, cfg).len() == s.len(),
        forall|k: int|
            0 <= k < s.len() ==> #[trigger] spec_process_children(s, cfg)[k]
                == spec_process_node(s[k], cfg),
    decreases s.len(),
{
    if s.len() > 0 {
        lemma_process_children(s.subrange(1, s.len() as int), cfg);
    }
}

} // verus!
