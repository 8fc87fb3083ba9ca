//! Unifies similar quotation marks into one style: the corner-bracket style
//! or the curly style, per the configured script preference.
use vstd::prelude::*;

use crate::config::{Config, ZhScript};
use crate::nodes::{
    char_to_be, lemma_nodes_view, lemma_nodes_view_update, node_view, nodes_view, Node, NodeView,
    OffsetValue,
};

verus! {

/// The curly form of a corner-bracket quotation mark.
pub open spec fn simplified_of(c: char) -> char {
    if c == '\u{300C}' {
        '\u{201C}'
    } else if c == '\u{300D}' {
        '\u{201D}'
    } else if c == '\u{300E}' {
        '\u{2018}'
    } else if c == '\u{300F}' {
        '\u{2019}'
    } else {
        c
    }
}

/// The corner-bracket form of a curly quotation mark.
pub open spec fn traditional_of(c: char) -> char {
    if c == '\u{201C}' {
        '\u{300C}'
    } else if c == '\u{201D}' {
        '\u{300D}'
    } else if c == '\u{2018}' {
        '\u{300E}'
    } else if c == '\u{2019}' {
        '\u{300F}'
    } else {
        c
    }
}

/// What unification proposes for one delimiter: the mapped form of its
/// effective value, or no change when the preference is off or the character
/// is outside the map.
pub open spec fn unify_delim(v: OffsetValue<char>, pref: Option<ZhScript>) -> OffsetValue<char> {
    match pref {
        Some(ZhScript::Simplified) => {
            if simplified_of(v.eff()) != v.eff() {
                char_to_be(v, simplified_of(v.eff()))
            } else {
                v
            }
        },
        Some(ZhScript::Traditional) => {
            if traditional_of(v.eff()) != v.eff() {
                char_to_be(v, traditional_of(v.eff()))
            } else {
                v
            }
        },
        None => v,
    }
}

/// What the unification rule leaves at position `i`: both delimiters of a
/// group are unified, anything else is untouched.
pub open spec fn spec_rule(s: Seq<NodeView>, i: int, cfg: Config) -> Seq<NodeView> {
    match s[i] {
        NodeView::Group { start, inner_space_before, nodes, end, space_after } => s.update(
            i,
            NodeView::Group {
                start: unify_delim(start, cfg.unified_punctuation),
                inner_space_before,
                nodes,
                end: unify_delim(end, cfg.unified_punctuation),
                space_after,
            },
        ),
        _ => s,
    }
}

/// Applies unification to one delimiter.
fn check_delim(v: &mut OffsetValue<char>, config: &Config)
    ensures
        *final(v) == unify_delim(*old(v), config.unified_punctuation),
{
    let eff = *v.modified();
    match config.unified_punctuation {
        Some(ZhScript::Simplified) => {
            let mapped = match eff {
                '\u{300C}' => '\u{201C}',
                '\u{300D}' => '\u{201D}',
                '\u{300E}' => '\u{2018}',
                '\u{300F}' => '\u{2019}',
                _ => eff,
            };
            if mapped != eff {
                v.to_be(mapped);
            }
        },
        Some(ZhScript::Traditional) => {
            let mapped = match eff {
                '\u{201C}' => '\u{300C}',
                '\u{201D}' => '\u{300D}',
                '\u{2018}' => '\u{300E}',
                '\u{2019}' => '\u{300F}',
                _ => eff,
            };
            if mapped != eff {
                v.to_be(mapped);
            }
        },
        None => {},
    }
}

/// Unifies the quotation style of the group at position `index`.
pub fn rule(nodes: &mut Vec<Node>, index: usize, config: &Config)
    requires
        index < old(nodes)@.len(),
    ensures
        final(nodes)@.len() == old(nodes)@.len(),
        nodes_view(final(nodes)@) == spec_rule(nodes_view(old(nodes)@), index as int, *config),
{
    let ghost s0 = nodes@;
    let ghost sv = nodes_view(nodes@);
    proof {
        lemma_nodes_view(s0);
    }
    let is_group = matches!(&nodes[index], Node::Group { .. });
    if !is_group {
        return ;
    }
    match &mut nodes[index] {
        Node::Group { start, end, .. } => {
            check_delim(start, config);
            check_delim(end, config);
        },
        _ => {
            proof {
                assert(false);
            }
        },
    }
    proof {
        lemma_nodes_view_update(s0, index as int, nodes@[index as int]);
        assert(nodes_view(nodes@) =~= spec_rule(sv, index as int, *config));
    }
}

} // verus!
