//! Removes whitespace just inside markup wrapper boundaries, so existing
//! spaces end up outside emphasis or strong markers rather than inside them.
use vstd::prelude::*;

use crate::config::Config;
use crate::nodes::{
    lemma_nodes_view, modify_node_space, nodes_view, view_set_space, Node, NodeView, Space,
};

verus! {

/// What the wrapper-spacing rule leaves at position `i`: the space after `i`
/// is removed when `i` and its successor stand just inside a wrapper
/// boundary.
pub open spec fn spec_rule(s: Seq<NodeView>, i: int, cfg: Config) -> Seq<NodeView> {
    if !cfg.no_space_inside_hyper_mark {
        s
    } else if i + 1 < s.len() {
        let cur = s[i];
        let after = s[i + 1];
        if !cur.is_wrapper() && !after.is_wrapper() {
            s
        } else if (cur.is_start_wrapper() && after.is_start_wrapper()) || (cur.is_end_wrapper()
            && after.is_end_wrapper()) || (cur.is_start_wrapper() && !after.is_wrapper()) || (
        !cur.is_wrapper() && after.is_end_wrapper()) {
            view_set_space(s, i, Seq::empty())
        } else {
            s
        }
    } else {
        s
    }
}

/// Removes the space just inside the wrapper boundary at position `index`.
pub fn rule(nodes: &mut Vec<Node>, index: usize, config: &Config)
    requires
        index < old(nodes)@.len(),
    ensures
        final(nodes)@.len() == old(nodes)@.len(),
        nodes_view(final(nodes)@) == spec_rule(nodes_view(old(nodes)@), index as int, *config),
{
    proof {
        lemma_nodes_view(nodes@);
    }
    if !config.no_space_inside_hyper_mark {
        return ;
    }
    let n = nodes.len();
    if index + 1 >= n {
        return ;
    }
    let cur_start = nodes[index].is_start_wrapper();
    let cur_end = nodes[index].is_end_wrapper();
    let cur_wrap = cur_start || cur_end;
    let after_start = nodes[index + 1].is_start_wrapper();
    let after_end = nodes[index + 1].is_end_wrapper();
    let after_wrap = after_start || after_end;
    if !cur_wrap && !after_wrap {
        return ;
    }
    if (cur_start && after_start) || (cur_end && after_end) || (cur_start && !after_wrap) || (
    !cur_wrap && after_end) {
        modify_node_space(nodes, index, Space::Empty);
    }
}

} // verus!
