//! Decides the whitespace between two content runs: one space between
//! half-width runs, none between full-width runs, and a configurable choice
//! between runs of mixed width.
use vstd::prelude::*;

use crate::config::Config;
use crate::cursor::{after_visible_idx, after_visible_index};
use crate::nodes::{
    lemma_nodes_view, modify_node_space, nodes_view, view_set_space, Node, NodeView, Space,
};

verus! {

/// What the letter-spacing rule leaves at position `i`.
pub open spec fn spec_rule(s: Seq<NodeView>, i: int, cfg: Config) -> Seq<NodeView> {
    match after_visible_idx(s, i) {
        None => s,
        Some(j) => {
            if s[i] is HalfwidthContent && s[j] is HalfwidthContent {
                if cfg.space_between_halfwidth_content {
                    view_set_space(s, i, seq![' '])
                } else {
                    s
                }
            } else if s[i] is FullwidthContent && s[j] is FullwidthContent {
                if cfg.no_space_between_fullwidth_content {
                    view_set_space(s, i, Seq::empty())
                } else {
                    s
                }
            } else if (s[i] is HalfwidthContent && s[j] is FullwidthContent) || (
            s[i] is FullwidthContent && s[j] is HalfwidthContent) {
                match cfg.space_between_mixedwidth_letters {
                    Some(one) => view_set_space(
                        s,
                        i,
                        if one {
                            seq![' ']
                        } else {
                            Seq::empty()
                        },
                    ),
                    None => s,
                }
            } else {
                s
            }
        },
    }
}

/// Applies the letter-spacing decision at position `index`.
pub fn rule(nodes: &mut Vec<Node>, index: usize, config: &Config)
    requires
        index < old(nodes)@.len(),
    ensures
        final(nodes)@.len() == old(nodes)@.len(),
        nodes_view(final(nodes)@) == spec_rule(nodes_view(old(nodes)@), index as int, *config),
{
    proof {
        lemma_nodes_view(nodes@);
    }
    let j = match after_visible_index(nodes, index) {
        Some(j) => j,
        None => {
            return ;
        },
    };
    let cur_half = matches!(&nodes[index], Node::HalfwidthContent { .. });
    let cur_full = matches!(&nodes[index], Node::FullwidthContent { .. });
    let after_half = matches!(&nodes[j], Node::HalfwidthContent { .. });
    let after_full = matches!(&nodes[j], Node::FullwidthContent { .. });
    if cur_half && after_half {
        if config.space_between_halfwidth_content {
            modify_node_space(nodes, index, Space::One);
        }
    } else if cur_full && after_full {
        if config.no_space_between_fullwidth_content {
            modify_node_space(nodes, index, Space::Empty);
        }
    } else if (cur_half && after_full) || (cur_full && after_half) {
        match config.space_between_mixedwidth_letters {
            Some(one) => {
                if one {
                    modify_node_space(nodes, index, Space::One);
                } else {
                    modify_node_space(nodes, index, Space::Empty);
                }
            },
            None => {},
        }
    }
}

} // verus!
