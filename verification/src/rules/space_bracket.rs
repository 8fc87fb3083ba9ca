//! Decides the whitespace around brackets: none just inside a pair, a
//! configurable space outside, and an exemption for half-width brackets flush
//! against half-width content on both sides.
use vstd::prelude::*;

use crate::char_kind::{
    char_is_wide, is_wide_or_chinese, kind, kind_of, spec_is_wide_or_chinese, wide_of,
};
use crate::config::Config;
use crate::cursor::{
    after_visible_idx, after_visible_index, before_visible_idx, before_visible_index,
};
use crate::nodes::{
    lemma_nodes_view, modify_node_space, node_view, nodes_view, view_set_space, Node, NodeView,
    OffsetValue, Space,
};
use crate::rules::space_quotation::{node_is_char_left, tri_space, view_char_left};

verus! {

/// The neighbors a bracket space decision applies against: content of either
/// width, inline code, or a quotation group — but not another character.
pub open spec fn is_bracket_neighbor(n: NodeView) -> bool {
    match n {
        NodeView::Char { .. } => false,
        NodeView::HalfwidthContent { .. } => true,
        NodeView::FullwidthContent { .. } => true,
        NodeView::Event { .. } => n.is_code(),
        NodeView::Group { .. } => true,
    }
}

/// Tests `is_bracket_neighbor` on a node.
fn bracket_neighbor(n: &Node) -> (r: bool)
    ensures
        r == is_bracket_neighbor(node_view(*n)),
{
    match n {
        Node::Char { .. } => false,
        Node::HalfwidthContent { .. } => true,
        Node::FullwidthContent { .. } => true,
        Node::Event { .. } => n.is_code(),
        Node::Group { .. } => true,
    }
}

/// The bracket at `i` is exempt from outside spacing: a half-width bracket
/// flush against half-width content on both sides, or an empty half-width
/// parenthesis pair beside half-width content.
pub open spec fn spec_should_skip(s: Seq<NodeView>, i: int, value: OffsetValue<char>) -> bool {
    match (before_visible_idx(s, i), after_visible_idx(s, i)) {
        (Some(b), Some(a)) => {
            if spec_is_wide_or_chinese(value.original) || spec_is_wide_or_chinese(value.eff()) {
                false
            } else if s[b].space_after().original.len() != 0 || s[a].space_after().original.len()
                != 0 {
                false
            } else {
                match (s[b], s[a]) {
                    (NodeView::HalfwidthContent { .. }, NodeView::HalfwidthContent { .. }) => true,
                    (NodeView::HalfwidthContent { .. }, NodeView::Char { value: av, .. }) => value
                        .eff() == '(' && av.eff() == ')',
                    (NodeView::Char { value: bv, .. }, NodeView::HalfwidthContent { .. }) => bv
                        .eff() == '(' && value.eff() == ')',
                    _ => false,
                }
            }
        },
        _ => false,
    }
}

/// Tests `spec_should_skip` at `index`.
fn should_skip(nodes: &Vec<Node>, index: usize, value_orig: char, value_eff: char) -> (r: bool)
    requires
        index < nodes@.len(),
        nodes_view(nodes@)[index as int] matches NodeView::Char { value: v, .. } && v.original
            == value_orig && v.eff() == value_eff,
    ensures
        r == spec_should_skip(
            nodes_view(nodes@),
            index as int,
            match nodes_view(nodes@)[index as int] {
                NodeView::Char { value: v, .. } => v,
                _ => arbitrary(),
            },
        ),
{
    proof {
        lemma_nodes_view(nodes@);
    }
    let b = match before_visible_index(nodes, index) {
        Some(b) => b,
        None => {
            return false;
        },
    };
    let a = match after_visible_index(nodes, index) {
        Some(a) => a,
        None => {
            return false;
        },
    };
    if is_wide_or_chinese(value_orig) || is_wide_or_chinese(value_eff) {
        return false;
    }
    if nodes[b].has_space_after() || nodes[a].has_space_after() {
        return false;
    }
    match (&nodes[b], &nodes[a]) {
        (Node::HalfwidthContent { .. }, Node::HalfwidthContent { .. }) => true,
        (Node::HalfwidthContent { .. }, Node::Char { value: av, .. }) => value_eff == '(' && *av
            .modified() == ')',
        (Node::Char { value: bv, .. }, Node::HalfwidthContent { .. }) => *bv.modified() == '('
            && value_eff == ')',
        _ => false,
    }
}

/// What removing the spaces just inside the bracket at `i` leaves.
pub open spec fn spec_inside(s: Seq<NodeView>, i: int, left: bool, enabled: bool) -> Seq<NodeView> {
    if !enabled {
        s
    } else if left {
        if i + 1 < s.len() {
            view_set_space(s, i, Seq::empty())
        } else {
            s
        }
    } else {
        if 1 <= i && !view_char_left(s[i - 1]) {
            view_set_space(s, i - 1, Seq::empty())
        } else {
            s
        }
    }
}

/// What the bracket-spacing rule leaves at position `i`.
pub open spec fn spec_rule(s: Seq<NodeView>, i: int, cfg: Config) -> Seq<NodeView> {
    match s[i] {
        NodeView::Char { value, .. } => {
            if !kind_of(value.original).spec_is_bracket_punctuation() {
                s
            } else {
                let left = kind_of(value.original).spec_is_left_punctuation();
                let right = kind_of(value.original).spec_is_right_punctuation();
                let s1 = spec_inside(s, i, left, cfg.no_space_inside_bracket);
                if spec_should_skip(s1, i, value) {
                    s1
                } else if !cfg.no_space_outside_fullwidth_bracket
                    && cfg.space_outside_halfwidth_bracket is None {
                    s1
                } else {
                    let s2 = match after_visible_idx(s1, i) {
                        Some(a) => match s1[a] {
                            NodeView::Char { value: av, .. } => {
                                if right && kind_of(av.original).spec_is_bracket_punctuation()
                                    && kind_of(av.original).spec_is_left_punctuation() {
                                    if wide_of(value.eff()) || wide_of(av.eff()) {
                                        if cfg.no_space_outside_fullwidth_bracket {
                                            view_set_space(s1, i, Seq::empty())
                                        } else {
                                            s1
                                        }
                                    } else {
                                        match cfg.space_outside_halfwidth_bracket {
                                            Some(one) => view_set_space(s1, i, tri_space(one)),
                                            None => s1,
                                        }
                                    }
                                } else {
                                    s1
                                }
                            },
                            _ => s1,
                        },
                        None => s1,
                    };
                    if left {
                        match before_visible_idx(s2, i) {
                            Some(b) => {
                                if is_bracket_neighbor(s2[b]) {
                                    if wide_of(value.original) {
                                        if cfg.no_space_outside_fullwidth_bracket {
                                            view_set_space(s2, b, Seq::empty())
                                        } else {
                                            s2
                                        }
                                    } else {
                                        match cfg.space_outside_halfwidth_bracket {
                                            Some(one) => view_set_space(s2, b, tri_space(one)),
                                            None => s2,
                                        }
                                    }
                                } else {
                                    s2
                                }
                            },
                            None => s2,
                        }
                    } else {
                        match after_visible_idx(s2, i) {
                            Some(a) => {
                                if is_bracket_neighbor(s2[a]) {
                                    if wide_of(value.original) {
                                        if cfg.no_space_outside_fullwidth_bracket {
                                            view_set_space(s2, i, Seq::empty())
                                        } else {
                                            s2
                                        }
                                    } else {
                                        match cfg.space_outside_halfwidth_bracket {
                                            Some(one) => view_set_space(s2, i, tri_space(one)),
                                            None => s2,
                                        }
                                    }
                                } else {
                                    s2
                                }
                            },
                            None => s2,
                        }
                    }
                }
            }
        },
        _ => s,
    }
}

/// Applies the bracket-spacing decisions at position `index`.
pub fn rule(nodes: &mut Vec<Node>, index: usize, config: &Config)
    requires
        index < old(nodes)@.len(),
    ensures
        final(nodes)@.len() == old(nodes)@.len(),
        nodes_view(final(nodes)@) == spec_rule(nodes_view(old(nodes)@), index as int, *config),
{
    proof {
        lemma_nodes_view(nodes@);
    }
    let (value_orig, value_eff) = match &nodes[index] {
        Node::Char { value, .. } => (value.original, *value.modified()),
        _ => {
            return ;
        },
    };
    let k = kind(value_orig);
    if !k.is_bracket_punctuation() {
        return ;
    }
    let left = k.is_left_punctuation();
    let right = k.is_right_punctuation();
    if config.no_space_inside_bracket {
        let n = nodes.len();
        if left {
            if index + 1 < n {
                modify_node_space(nodes, index, Space::Empty);
            }
        } else {
            if 1 <= index && !node_is_char_left(&nodes[index - 1]) {
                modify_node_space(nodes, index - 1, Space::Empty);
            }
        }
    }
    proof {
        lemma_nodes_view(nodes@);
    }
    if should_skip(nodes, index, value_orig, value_eff) {
        return ;
    }
    if !config.no_space_outside_fullwidth_bracket && config.space_outside_halfwidth_bracket
        .is_none() {
        return ;
    }
    match after_visible_index(nodes, index) {
        Some(a) => {
            let after_char = match &nodes[a] {
                Node::Char { value: av, .. } => Some((av.original, *av.modified())),
                _ => None,
            };
            match after_char {
                Some((ao, ae)) => {
                    let ak = kind(ao);
                    if right && ak.is_bracket_punctuation() && ak.is_left_punctuation() {
                        if char_is_wide(value_eff) || char_is_wide(ae) {
                            if config.no_space_outside_fullwidth_bracket {
                                modify_node_space(nodes, index, Space::Empty);
                            }
                        } else {
                            match config.space_outside_halfwidth_bracket {
                                Some(one) => {
                                    if one {
                                        modify_node_space(nodes, index, Space::One);
                                    } else {
                                        modify_node_space(nodes, index, Space::Empty);
                                    }
                                },
                                None => {},
                            }
                        }
                    }
                },
                None => {},
            }
        },
        None => {},
    }
    proof {
        lemma_nodes_view(nodes@);
    }
    if left {
        match before_visible_index(nodes, index) {
            Some(b) => {
                if bracket_neighbor(&nodes[b]) {
                    if char_is_wide(value_orig) {
                        if config.no_space_outside_fullwidth_bracket {
                            modify_node_space(nodes, b, Space::Empty);
                        }
                    } else {
                        match config.space_outside_halfwidth_bracket {
                            Some(one) => {
                                if one {
                                    modify_node_space(nodes, b, Space::One);
                                } else {
                                    modify_node_space(nodes, b, Space::Empty);
                                }
                            },
                            None => {},
                        }
                    }
                }
            },
            None => {},
        }
    } else {
        match after_visible_index(nodes, index) {
            Some(a) => {
                if bracket_neighbor(&nodes[a]) {
                    if char_is_wide(value_orig) {
                        if config.no_space_outside_fullwidth_bracket {
                            modify_node_space(nodes, index, Space::Empty);
                        }
                    } else {
                        match config.space_outside_halfwidth_bracket {
                            Some(one) => {
                                if one {
                                    modify_node_space(nodes, index, Space::One);
                                } else {
                                    modify_node_space(nodes, index, Space::Empty);
                                }
                            },
                            None => {},
                        }
                    }
                }
            },
            None => {},
        }
    }
}

} // verus!
