//! Decides whether to keep one space or none between inline code and its
//! neighboring content or code.
use vstd::prelude::*;

use crate::config::Config;
use crate::cursor::{after_visible_idx, after_visible_index, before_visible_idx, before_visible_index};
use crate::nodes::{
    lemma_nodes_view, modify_node_space, nodes_view, view_set_space, Node, NodeView, Space,
};

verus! {

/// Whether a viewed node can carry a space decision next to inline code:
/// content of either width, or another code span.
pub open spec fn is_code_neighbor(n: NodeView) -> bool {
    n is HalfwidthContent || n is FullwidthContent || n.is_code()
}

/// What the code-spacing rule leaves at position `i`: the configured space
/// before the code span (on the visible node before it) and after it (on the
/// code span itself, when content or code follows).
pub open spec fn spec_rule(s: Seq<NodeView>, i: int, cfg: Config) -> Seq<NodeView> {
    match cfg.space_outside_code {
        None => s,
        Some(one) => {
            let m = if one {
                seq![' ']
            } else {
                Seq::<char>::empty()
            };
            if !s[i].is_code() {
                s
            } else {
                let s1 = match before_visible_idx(s, i) {
                    Some(bi) => view_set_space(s, bi, m),
                    None => s,
                };
                match after_visible_idx(s1, i) {
                    Some(ai) => {
                        if is_code_neighbor(s1[ai]) {
                            view_set_space(s1, i, m)
                        } else {
                            s1
                        }
                    },
                    None => s1,
                }
            }
        },
    }
}

/// The configured space as a whitespace value.
fn configured_space(one: bool) -> (r: Space)
    ensures
        r.chars() == if one {
            seq![' ']
        } else {
            Seq::<char>::empty()
        },
{
    if one {
        Space::One
    } else {
        Space::Empty
    }
}

/// Applies the code-spacing decision at position `index`.
pub fn rule(nodes: &mut Vec<Node>, index: usize, config: &Config)
    requires
        index < old(nodes)@.len(),
    ensures
        final(nodes)@.len() == old(nodes)@.len(),
        nodes_view(final(nodes)@) == spec_rule(nodes_view(old(nodes)@), index as int, *config),
{
    proof {
        lemma_nodes_view(nodes@);
    }
    let one = match config.space_outside_code {
        Some(b) => b,
        None => {
            return ;
        },
    };
    if !nodes[index].is_code() {
        return ;
    }
    match before_visible_index(nodes, index) {
        Some(bi) => {
            modify_node_space(nodes, bi, configured_space(one));
        },
        None => {},
    }
    proof {
        lemma_nodes_view(nodes@);
    }
    match after_visible_index(nodes, index) {
        Some(ai) => {
            let neighbor_ok = match &nodes[ai] {
                Node::HalfwidthContent { .. } | Node::FullwidthContent { .. } => true,
                n => n.is_code(),
            };
            if neighbor_ok {
                modify_node_space(nodes, index, configured_space(one));
            }
        },
        None => {},
    }
}

} // verus!
