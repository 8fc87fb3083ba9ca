//! Reverts the width conversion of a dot that ends a configured abbreviation,
//! so abbreviation-terminating dots are not mistaken for sentence stops.
use vstd::prelude::*;

use crate::config::Config;
use crate::cursor::{match_abbr, spec_match_abbr, strings_view};
use crate::nodes::{
    lemma_nodes_view, lemma_nodes_view_update, node_view, nodes_view, Node, NodeView, OffsetValue,
};

verus! {

/// What the abbreviation rule leaves at position `i`: the proposal on an
/// abbreviation-ending dot is cleared; everything else is untouched. A dot
/// followed directly by half-width content is not an ending dot.
pub open spec fn spec_rule(s: Seq<NodeView>, i: int, cfg: Config) -> Seq<NodeView> {
    match s[i] {
        NodeView::Char { value, space_after } => {
            if value.original != '.' {
                s
            } else if i + 1 < s.len() && s[i + 1] is HalfwidthContent && space_after.original.len()
                == 0 {
                s
            } else if spec_match_abbr(s, i, strings_view(cfg.skip_abbrs@)) {
                s.update(
                    i,
                    NodeView::Char {
                        value: OffsetValue { modified: None, ..value },
                        space_after,
                    },
                )
            } else {
                s
            }
        },
        _ => s,
    }
}

/// Keeps the dot at position `index` half-width when it ends a configured
/// abbreviation.
pub fn rule(nodes: &mut Vec<Node>, index: usize, config: &Config)
    requires
        index < old(nodes)@.len(),
    ensures
        final(nodes)@.len() == old(nodes)@.len(),
        nodes_view(final(nodes)@) == spec_rule(nodes_view(old(nodes)@), index as int, *config),
{
    let ghost s0 = nodes@;
    let ghost sv = nodes_view(nodes@);
    proof {
        lemma_nodes_view(s0);
    }
    let is_dot = match &nodes[index] {
        Node::Char { value, .. } => value.original == '.',
        _ => false,
    };
    if !is_dot {
        return ;
    }
    let n = nodes.len();
    if index + 1 < n {
        let mid_abbr = match (&nodes[index], &nodes[index + 1]) {
            (Node::Char { space_after, .. }, Node::HalfwidthContent { .. }) => space_after
                .original
                .is_blank(),
            _ => false,
        };
        if mid_abbr {
            return ;
        }
    }
    if match_abbr(nodes, index, &config.skip_abbrs) {
        match &mut nodes[index] {
            Node::Char { value, .. } => {
                value.revert_modified();
            },
            _ => {
                proof {
                    assert(false);
                }
            },
        }
        proof {
            lemma_nodes_view_update(s0, index as int, nodes@[index as int]);
            assert(nodes_view(nodes@) =~= spec_rule(sv, index as int, *config));
        }
    }
}

} // verus!
