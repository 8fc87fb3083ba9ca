//! Decides the whitespace around pause/stop punctuation: no space before it,
//! and a configurable space after it, split by the punctuation's effective
//! width.
use vstd::prelude::*;

use crate::char_kind::{char_is_wide, kind, kind_of, wide_of};
use crate::config::Config;
use crate::cursor::{
    after_visible_idx, after_visible_index, before_visible_idx, before_visible_index,
    is_halfwidth_punctuation_without_space_around, is_successive_halfwidth_punctuation,
    spec_halfwidth_punct_without_space_around, spec_successive_halfwidth_punctuation,
};
use crate::nodes::{
    lemma_nodes_view, modify_node_space, nodes_view, view_set_space, Node, NodeView, Space,
};

verus! {

/// The neighbors a pause/stop space decision applies against: content of
/// either width, a right bracket character, inline code, or a quotation
/// group.
pub open spec fn is_content_view(n: NodeView) -> bool {
    match n {
        NodeView::Char { value, .. } => kind_of(value.original).spec_is_bracket_punctuation()
            && kind_of(value.original).spec_is_right_punctuation(),
        NodeView::HalfwidthContent { .. } => true,
        NodeView::FullwidthContent { .. } => true,
        NodeView::Event { .. } => n.is_code(),
        NodeView::Group { .. } => true,
    }
}

/// Tests `is_content_view` on a node.
fn is_content(n: &Node) -> (r: bool)
    ensures
        r == is_content_view(crate::nodes::node_view(*n)),
{
    match n {
        Node::Char { value, .. } => {
            let k = kind(value.original);
            k.is_bracket_punctuation() && k.is_right_punctuation()
        },
        Node::HalfwidthContent { .. } => true,
        Node::FullwidthContent { .. } => true,
        Node::Event { .. } => n.is_code(),
        Node::Group { .. } => true,
    }
}

/// What the pause/stop spacing rule leaves at position `i`.
pub open spec fn spec_rule(s: Seq<NodeView>, i: int, cfg: Config) -> Seq<NodeView> {
    match s[i] {
        NodeView::Char { value, .. } => {
            if !kind_of(value.original).spec_is_pause_stop_punctuation() {
                s
            } else if spec_halfwidth_punct_without_space_around(s, i)
                || spec_successive_halfwidth_punctuation(s, i) {
                s
            } else {
                let s1 = if cfg.no_space_before_pause_or_stop {
                    match before_visible_idx(s, i) {
                        Some(b) => {
                            if is_content_view(s[b]) {
                                view_set_space(s, b, Seq::empty())
                            } else {
                                s
                            }
                        },
                        None => s,
                    }
                } else {
                    s
                };
                match after_visible_idx(s1, i) {
                    Some(a) => {
                        if is_content_view(s1[a]) {
                            if wide_of(value.eff()) {
                                if cfg.no_space_after_fullwidth_pause_or_stop {
                                    view_set_space(s1, i, Seq::empty())
                                } else {
                                    s1
                                }
                            } else {
                                match cfg.space_after_halfwidth_pause_or_stop {
                                    Some(one) => view_set_space(
                                        s1,
                                        i,
                                        if one {
                                            seq![' ']
                                        } else {
                                            Seq::empty()
                                        },
                                    ),
                                    None => s1,
                                }
                            }
                        } else {
                            s1
                        }
                    },
                    None => s1,
                }
            }
        },
        _ => s,
    }
}

/// Applies the pause/stop spacing decision at position `index`.
pub fn rule(nodes: &mut Vec<Node>, index: usize, config: &Config)
    requires
        index < old(nodes)@.len(),
    ensures
        final(nodes)@.len() == old(nodes)@.len(),
        nodes_view(final(nodes)@) == spec_rule(nodes_view(old(nodes)@), index as int, *config),
{
    proof {
        lemma_nodes_view(nodes@);
    }
    let (orig_pause_stop, eff) = match &nodes[index] {
        Node::Char { value, .. } => (
            kind(value.original).is_pause_stop_punctuation(),
            *value.modified(),
        ),
        _ => {
            return ;
        },
    };
    if !orig_pause_stop {
        return ;
    }
    if is_halfwidth_punctuation_without_space_around(nodes, index) {
        return ;
    }
    if is_successive_halfwidth_punctuation(nodes, index) {
        return ;
    }
    if config.no_space_before_pause_or_stop {
        match before_visible_index(nodes, index) {
            Some(b) => {
                if is_content(&nodes[b]) {
                    modify_node_space(nodes, b, Space::Empty);
                }
            },
            None => {},
        }
    }
    proof {
        lemma_nodes_view(nodes@);
    }
    match after_visible_index(nodes, index) {
        Some(a) => {
            if is_content(&nodes[a]) {
                if char_is_wide(eff) {
                    if config.no_space_after_fullwidth_pause_or_stop {
                        modify_node_space(nodes, index, Space::Empty);
                    }
                } else {
                    match config.space_after_halfwidth_pause_or_stop {
                        Some(one) => {
                            if one {
                                modify_node_space(nodes, index, Space::One);
                            } else {
                                modify_node_space(nodes, index, Space::Empty);
                            }
                        },
                        None => {},
                    }
                }
            }
        },
        None => {},
    }
}

} // verus!
