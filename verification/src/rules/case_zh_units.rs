//! Reverts the spacing decisions around a run of digits directly followed by
//! a configured Chinese unit character, preserving forms like a year number
//! written against its unit.
use vstd::prelude::*;
use vstd::string::StrSliceExecFns;

use crate::char_kind::{char_is_numeric, char_is_wide, numeric_of, wide_of};
use crate::config::Config;
use crate::cursor::{
    after_visible_idx, after_visible_index, before_visible_idx, before_visible_index, strings_view,
};
use crate::nodes::{
    lemma_nodes_view, nodes_view, revert_node_space, view_revert_space, Node, NodeView,
};

verus! {

/// Whether every character of a run is a half-width numeral.
pub open spec fn all_halfwidth_numeric(v: Seq<char>) -> bool {
    forall|k: int| 0 <= k < v.len() ==> numeric_of(#[trigger] v[k]) && !wide_of(v[k])
}

/// Tests `all_halfwidth_numeric` on a content run.
fn halfwidth_numeric_run(v: &String) -> (r: bool)
    ensures
        r == all_halfwidth_numeric(v@),
{
    let s = v.as_str();
    let len = s.unicode_len();
    let mut i: usize = 0;
    while i < len
        invariant
            len == v@.len(),
            s@ == v@,
            i <= len,
            forall|k: int| 0 <= k < i ==> numeric_of(#[trigger] v@[k]) && !wide_of(v@[k]),
        decreases len - i,
    {
        let c = s.get_char(i);
        if !char_is_numeric(c) || char_is_wide(c) {
            return false;
        }
        i = i + 1;
    }
    true
}

/// Whether a run equals one of the configured unit strings.
pub open spec fn is_unit(v: Seq<char>, units: Seq<Seq<char>>) -> bool {
    exists|k: int| 0 <= k < units.len() && units[k] == v
}

/// Tests `is_unit` on a content run.
fn unit_match(v: &String, units: &Vec<String>) -> (r: bool)
    ensures
        r == is_unit(v@, strings_view(units@)),
{
    let mut k: usize = 0;
    while k < units.len()
        invariant
            k <= units@.len(),
            forall|m: int| 0 <= m < k ==> strings_view(units@)[m] != v@,
        decreases units@.len() - k,
    {
        if units[k].eq(v) {
            proof {
                assert(strings_view(units@)[k as int] == units@[k as int]@);
            }
            return true;
        }
        k = k + 1;
    }
    false
}

/// What the Chinese-unit rule leaves at position `i`: when a run of digits is
/// directly followed (past any wrappers) by a configured unit, the spacing
/// proposals before and after the digits are reverted.
pub open spec fn spec_rule(s: Seq<NodeView>, i: int, cfg: Config) -> Seq<NodeView> {
    match s[i] {
        NodeView::HalfwidthContent { value, .. } => {
            if !all_halfwidth_numeric(value) {
                s
            } else {
                match after_visible_idx(s, i) {
                    Some(j) => match s[j] {
                        NodeView::FullwidthContent { value: uv, .. } => {
                            if is_unit(uv, strings_view(cfg.skip_zh_units@)) {
                                let s1 = match before_visible_idx(s, i) {
                                    Some(b) => view_revert_space(s, b),
                                    None => s,
                                };
                                view_revert_space(s1, i)
                            } else {
                                s
                            }
                        },
                        _ => s,
                    },
                    None => s,
                }
            }
        },
        _ => s,
    }
}

/// Reverts the spacing around the digit run at position `index` when a
/// configured unit follows it.
pub fn rule(nodes: &mut Vec<Node>, index: usize, config: &Config)
    requires
        index < old(nodes)@.len(),
    ensures
        final(nodes)@.len() == old(nodes)@.len(),
        nodes_view(final(nodes)@) == spec_rule(nodes_view(old(nodes)@), index as int, *config),
{
    proof {
        lemma_nodes_view(nodes@);
    }
    let numeric = match &nodes[index] {
        Node::HalfwidthContent { value, .. } => halfwidth_numeric_run(value),
        _ => {
            return ;
        },
    };
    if !numeric {
        return ;
    }
    let j = match after_visible_index(nodes, index) {
        Some(j) => j,
        None => {
            return ;
        },
    };
    let followed_by_unit = match &nodes[j] {
        Node::FullwidthContent { value, .. } => unit_match(value, &config.skip_zh_units),
        _ => false,
    };
    let is_full = matches!(&nodes[j], Node::FullwidthContent { .. });
    if !is_full {
        return ;
    }
    if !followed_by_unit {
        return ;
    }
    match before_visible_index(nodes, index) {
        Some(b) => {
            revert_node_space(nodes, b);
        },
        None => {},
    }
    proof {
        lemma_nodes_view(nodes@);
    }
    revert_node_space(nodes, index);
}

} // verus!
