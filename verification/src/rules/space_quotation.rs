//! Decides the whitespace around quotation groups: none just inside the
//! delimiters, and a configurable space outside them, split by the effective
//! delimiter's width.
use vstd::prelude::*;

use crate::char_kind::{is_wide_or_chinese, kind, kind_of, spec_is_wide_or_chinese};
use crate::config::Config;
use crate::cursor::{
    after_visible_idx, after_visible_index, before_visible_idx, before_visible_index,
};
use crate::nodes::{
    lemma_node_view_with_space, lemma_nodes_view, lemma_nodes_view_update, lemma_space_to_be_view,
    modify_node_space, node_view, nodes_view, view_set_space, view_space_to_be, Node, NodeView,
    Space,
};

verus! {

/// Whether a viewed node is a right-punctuation character (by its source
/// value).
pub open spec fn view_char_right(n: NodeView) -> bool {
    match n {
        NodeView::Char { value, .. } => kind_of(value.original).spec_is_right_punctuation(),
        _ => false,
    }
}

/// Whether a viewed node is a left-punctuation character (by its source
/// value).
pub open spec fn view_char_left(n: NodeView) -> bool {
    match n {
        NodeView::Char { value, .. } => kind_of(value.original).spec_is_left_punctuation(),
        _ => false,
    }
}

/// Tests `view_char_right` on a node.
pub fn node_is_char_right(n: &Node) -> (r: bool)
    ensures
        r == view_char_right(node_view(*n)),
{
    match n {
        Node::Char { value, .. } => kind(value.original).is_right_punctuation(),
        _ => false,
    }
}

/// Tests `view_char_left` on a node.
pub fn node_is_char_left(n: &Node) -> (r: bool)
    ensures
        r == view_char_left(node_view(*n)),
{
    match n {
        Node::Char { value, .. } => kind(value.original).is_left_punctuation(),
        _ => false,
    }
}

/// What removing the spaces just inside the group at `i` leaves: the space
/// after the opening delimiter goes unless the first child is right
/// punctuation, and the last child's trailing space goes unless it is left
/// punctuation.
pub open spec fn spec_inside(s: Seq<NodeView>, i: int, enabled: bool) -> Seq<NodeView> {
    if !enabled {
        s
    } else {
        match s[i] {
            NodeView::Group { start, inner_space_before, nodes, end, space_after } => {
                let isb1 = if nodes.len() > 0 && !view_char_right(nodes[0]) {
                    view_space_to_be(inner_space_before, Seq::empty())
                } else {
                    inner_space_before
                };
                let ch1 = if nodes.len() > 0 && !view_char_left(nodes[nodes.len() - 1]) {
                    nodes.update(
                        nodes.len() - 1,
                        nodes[nodes.len() - 1].with_space_after(
                            view_space_to_be(
                                nodes[nodes.len() - 1].space_after(),
                                Seq::empty(),
                            ),
                        ),
                    )
                } else {
                    nodes
                };
                let isb2 = if nodes.len() == 0 {
                    view_space_to_be(isb1, Seq::empty())
                } else {
                    isb1
                };
                s.update(
                    i,
                    NodeView::Group {
                        start,
                        inner_space_before: isb2,
                        nodes: ch1,
                        end,
                        space_after,
                    },
                )
            },
            _ => s,
        }
    }
}

/// The configured whitespace text for a tri-state option.
pub open spec fn tri_space(one: bool) -> Seq<char> {
    if one {
        seq![' ']
    } else {
        Seq::empty()
    }
}

/// What the quotation-spacing rule leaves at position `i`.
pub open spec fn spec_rule(s: Seq<NodeView>, i: int, cfg: Config) -> Seq<NodeView> {
    match s[i] {
        NodeView::Group { start, end, .. } => {
            let s1 = spec_inside(s, i, cfg.no_space_inside_quotation);
            if !cfg.no_space_outside_fullwidth_quotation && cfg.space_outside_halfwidth_quotation
                is None {
                s1
            } else {
                let s2 = match after_visible_idx(s1, i) {
                    Some(a) => match s1[a] {
                        NodeView::Group { start: astart, .. } => {
                            if spec_is_wide_or_chinese(end.eff()) || spec_is_wide_or_chinese(
                                astart.eff(),
                            ) {
                                if cfg.no_space_outside_fullwidth_quotation {
                                    view_set_space(s1, i, Seq::empty())
                                } else {
                                    s1
                                }
                            } else {
                                match cfg.space_outside_halfwidth_quotation {
                                    Some(one) => view_set_space(s1, i, tri_space(one)),
                                    None => s1,
                                }
                            }
                        },
                        _ => s1,
                    },
                    None => s1,
                };
                let s3 = match before_visible_idx(s2, i) {
                    Some(b) => {
                        if spec_is_wide_or_chinese(start.eff()) {
                            if cfg.no_space_outside_fullwidth_quotation {
                                view_set_space(s2, b, Seq::empty())
                            } else {
                                s2
                            }
                        } else {
                            match cfg.space_outside_halfwidth_quotation {
                                Some(one) => view_set_space(s2, b, tri_space(one)),
                                None => s2,
                            }
                        }
                    },
                    None => s2,
                };
                match after_visible_idx(s3, i) {
                    Some(_) => {
                        if spec_is_wide_or_chinese(end.eff()) {
                            if cfg.no_space_outside_fullwidth_quotation {
                                view_set_space(s3, i, Seq::empty())
                            } else {
                                s3
                            }
                        } else {
                            match cfg.space_outside_halfwidth_quotation {
                                Some(one) => view_set_space(s3, i, tri_space(one)),
                                None => s3,
                            }
                        }
                    },
                    None => s3,
                }
            }
        },
        _ => s,
    }
}

/// Applies the quotation-spacing decisions at position `index`.
pub fn rule(nodes: &mut Vec<Node>, index: usize, config: &Config)
    requires
        index < old(nodes)@.len(),
    ensures
        final(nodes)@.len() == old(nodes)@.len(),
        nodes_view(final(nodes)@) == spec_rule(nodes_view(old(nodes)@), index as int, *config),
{
    let ghost s0 = nodes@;
    let ghost sv = nodes_view(nodes@);
    proof {
        lemma_nodes_view(s0);
    }
    let (start_eff, end_eff) = match &nodes[index] {
        Node::Group { start, end, .. } => (*start.modified(), *end.modified()),
        _ => {
            return ;
        },
    };
    if config.no_space_inside_quotation {
        match &mut nodes[index] {
            Node::Group { inner_space_before, nodes: children, .. } => {
                let ghost ch0 = children@;
                let ghost isb0 = *inner_space_before;
                let clen = children.len();
                if clen > 0 {
                    if !node_is_char_right(&children[0]) {
                        inner_space_before.to_be(Space::Empty);
                        proof {
                            lemma_space_to_be_view(isb0, Space::Empty);
                        }
                    }
                    if !node_is_char_left(&children[clen - 1]) {
                        let ghost old_child = children@[clen - 1];
                        let ch = &mut children[clen - 1];
                        ch.remove_space_after();
                        proof {
                            lemma_node_view_with_space(
                                old_child,
                                crate::nodes::space_to_be(
                                    old_child.spec_space_after(),
                                    Space::Empty,
                                ),
                            );
                            lemma_space_to_be_view(old_child.spec_space_after(), Space::Empty);
                            lemma_nodes_view_update(ch0, clen - 1, children@[clen - 1]);
                            lemma_nodes_view(ch0);
                        }
                    } else {
                        proof {
                            lemma_nodes_view(ch0);
                        }
                    }
                } else {
                    inner_space_before.to_be(Space::Empty);
                    proof {
                        lemma_space_to_be_view(isb0, Space::Empty);
                        assert(nodes_view(ch0) =~= Seq::<NodeView>::empty());
                    }
                }
            },
            _ => {
                proof {
                    assert(false);
                }
            },
        }
        proof {
            lemma_nodes_view_update(s0, index as int, nodes@[index as int]);
            assert(nodes_view(nodes@) =~= spec_inside(sv, index as int, true));
        }
    }
    let ghost s_in = nodes_view(nodes@);
    proof {
        assert(s_in == spec_inside(sv, index as int, config.no_space_inside_quotation));
    }
    if !config.no_space_outside_fullwidth_quotation && config.space_outside_halfwidth_quotation
        .is_none() {
        return ;
    }
    proof {
        lemma_nodes_view(nodes@);
    }
    match after_visible_index(nodes, index) {
        Some(a) => {
            let astart_eff = match &nodes[a] {
                Node::Group { start, .. } => Some(*start.modified()),
                _ => None,
            };
            match astart_eff {
                Some(ae) => {
                    if is_wide_or_chinese(end_eff) || is_wide_or_chinese(ae) {
                        if config.no_space_outside_fullwidth_quotation {
                            modify_node_space(nodes, index, Space::Empty);
                        }
                    } else {
                        match config.space_outside_halfwidth_quotation {
                            Some(one) => {
                                if one {
                                    modify_node_space(nodes, index, Space::One);
                                } else {
                                    modify_node_space(nodes, index, Space::Empty);
                                }
                            },
                            None => {},
                        }
                    }
                },
                None => {},
            }
        },
        None => {},
    }
    proof {
        lemma_nodes_view(nodes@);
    }
    match before_visible_index(nodes, index) {
        Some(b) => {
            if is_wide_or_chinese(start_eff) {
                if config.no_space_outside_fullwidth_quotation {
                    modify_node_space(nodes, b, Space::Empty);
                }
            } else {
                match config.space_outside_halfwidth_quotation {
                    Some(one) => {
                        if one {
                            modify_node_space(nodes, b, Space::One);
                        } else {
                            modify_node_space(nodes, b, Space::Empty);
                        }
                    },
                    None => {},
                }
            }
        },
        None => {},
    }
    proof {
        lemma_nodes_view(nodes@);
    }
    match after_visible_index(nodes, index) {
        Some(_) => {
            if is_wide_or_chinese(end_eff) {
                if config.no_space_outside_fullwidth_quotation {
                    modify_node_space(nodes, index, Space::Empty);
                }
            } else {
                match config.space_outside_halfwidth_quotation {
                    Some(one) => {
                        if one {
                            modify_node_space(nodes, index, Space::One);
                        } else {
                            modify_node_space(nodes, index, Space::Empty);
                        }
                    },
                    None => {},
                }
            }
        },
        None => {},
    }
}

} // verus!
