//! Neighbor lookup in a sibling node list: raw neighbors, "visible" neighbors
//! that skip structural markup wrappers, and the composite predicates several
//! rules share. Rules run in a fixed order within one pass, so the composite
//! predicates consult the current effective whitespace (an earlier spacing
//! decision counts); the characters they test are the source values, since a
//! width-converted neighbor must not change what the source text protects
//! (a full-width bracket turned half-width beside a comma does not make that
//! comma part of a half-width punctuation run).
use vstd::prelude::*;

use crate::char_kind::{kind, kind_of};
use crate::encoding::{str_chars, string_from_chars};
use crate::nodes::{lemma_nodes_view, nodes_view, Node, NodeView, OffsetSpaceView};

verus! {

/// Whether a viewed whitespace run effectively holds any characters.
pub open spec fn view_has_space(sp: OffsetSpaceView) -> bool {
    sp.eff().len() != 0
}

/// The nearest sibling before `i` that is not a markup wrapper.
pub open spec fn before_visible_idx(s: Seq<NodeView>, i: int) -> Option<int>
    decreases i,
{
    if i <= 0 {
        None
    } else if !s[i - 1].is_wrapper() {
        Some(i - 1)
    } else {
        before_visible_idx(s, i - 1)
    }
}

/// The nearest sibling after `i` that is not a markup wrapper.
pub open spec fn after_visible_idx(s: Seq<NodeView>, i: int) -> Option<int>
    decreases s.len() - i,
{
    if i + 1 >= s.len() {
        None
    } else if !s[i + 1].is_wrapper() {
        Some(i + 1)
    } else {
        after_visible_idx(s, i + 1)
    }
}

/// Finds the nearest sibling before `index` that is not a markup wrapper.
pub fn before_visible_index(nodes: &Vec<Node>, index: usize) -> (r: Option<usize>)
    requires
        index <= nodes@.len(),
    ensures
        match r {
            Some(j) => before_visible_idx(nodes_view(nodes@), index as int) == Some(j as int) && j
                < index,
            None => before_visible_idx(nodes_view(nodes@), index as int) is None,
        },
    decreases index,
{
    proof {
        lemma_nodes_view(nodes@);
    }
    if index == 0 {
        None
    } else if !nodes[index - 1].is_wrapper() {
        Some(index - 1)
    } else {
        before_visible_index(nodes, index - 1)
    }
}

/// Finds the nearest sibling after `index` that is not a markup wrapper.
pub fn after_visible_index(nodes: &Vec<Node>, index: usize) -> (r: Option<usize>)
    requires
        index <= nodes@.len(),
    ensures
        match r {
            Some(j) => after_visible_idx(nodes_view(nodes@), index as int) == Some(j as int)
                && index < j < nodes@.len(),
            None => after_visible_idx(nodes_view(nodes@), index as int) is None,
        },
    decreases nodes@.len() - index,
{
    proof {
        lemma_nodes_view(nodes@);
    }
    let n = nodes.len();
    if n - index <= 1 {
        None
    } else if !nodes[index + 1].is_wrapper() {
        Some(index + 1)
    } else {
        after_visible_index(nodes, index + 1)
    }
}

/// Whether the node is an atomic character whose source value has a Western
/// punctuation kind.
pub open spec fn is_western_punct_char_node(n: NodeView) -> bool {
    match n {
        NodeView::Char { value, .. } => kind_of(value.original).spec_is_western_punctuation(),
        _ => false,
    }
}

/// Half-width punctuation with no whitespace around it, standing between
/// half-width content on both sides (protects text like a plural marker in
/// brackets appended to a word).
pub open spec fn spec_halfwidth_punct_without_space_around(s: Seq<NodeView>, i: int) -> bool {
    &&& 1 <= i && i + 1 < s.len()
    &&& is_western_punct_char_node(s[i])
    &&& !view_has_space(s[i].space_after())
    &&& s[i - 1] is HalfwidthContent
    &&& !view_has_space(s[i - 1].space_after())
    &&& s[i + 1] is HalfwidthContent
}

/// Tests `spec_halfwidth_punct_without_space_around` at `index`.
pub fn is_halfwidth_punctuation_without_space_around(nodes: &Vec<Node>, index: usize) -> (r: bool)
    requires
        index < nodes@.len(),
    ensures
        r == spec_halfwidth_punct_without_space_around(nodes_view(nodes@), index as int),
{
    proof {
        lemma_nodes_view(nodes@);
    }
    let n = nodes.len();
    if !(1 <= index && index + 1 < n) {
        return false;
    }
    let cur_ok = match &nodes[index] {
        Node::Char { value, space_after } => kind(value.original).is_western_punctuation()
            && space_after.modified().is_blank(),
        _ => false,
    };
    let before_ok = match &nodes[index - 1] {
        Node::HalfwidthContent { space_after, .. } => space_after.modified().is_blank(),
        _ => false,
    };
    let after_ok = matches!(&nodes[index + 1], Node::HalfwidthContent { .. });
    cur_ok && before_ok && after_ok
}

/// Two half-width punctuation characters standing directly together with no
/// whitespace between them (protects runs like ellipses).
pub open spec fn spec_successive_halfwidth_punctuation(s: Seq<NodeView>, i: int) -> bool {
    ||| {
        &&& 1 <= i < s.len()
        &&& is_western_punct_char_node(s[i])
        &&& is_western_punct_char_node(s[i - 1])
        &&& !view_has_space(s[i - 1].space_after())
    }
    ||| {
        &&& 0 <= i && i + 1 < s.len()
        &&& is_western_punct_char_node(s[i])
        &&& is_western_punct_char_node(s[i + 1])
        &&& !view_has_space(s[i].space_after())
    }
}

/// Tests `spec_successive_halfwidth_punctuation` at `index`.
pub fn is_successive_halfwidth_punctuation(nodes: &Vec<Node>, index: usize) -> (r: bool)
    requires
        index < nodes@.len(),
    ensures
        r == spec_successive_halfwidth_punctuation(nodes_view(nodes@), index as int),
{
    proof {
        lemma_nodes_view(nodes@);
    }
    let cur_punct = match &nodes[index] {
        Node::Char { value, .. } => kind(value.original).is_western_punctuation(),
        _ => false,
    };
    if !cur_punct {
        return false;
    }
    if index >= 1 {
        let before_hit = match &nodes[index - 1] {
            Node::Char { value, space_after } => kind(value.original).is_western_punctuation()
                && space_after.modified().is_blank(),
            _ => false,
        };
        if before_hit {
            return true;
        }
    }
    let n = nodes.len();
    if index + 1 < n {
        let cur_no_space = match &nodes[index] {
            Node::Char { space_after, .. } => space_after.modified().is_blank(),
            _ => false,
        };
        let after_punct = match &nodes[index + 1] {
            Node::Char { value, .. } => kind(value.original).is_western_punctuation(),
            _ => false,
        };
        if cur_no_space && after_punct {
            return true;
        }
    }
    false
}

/// The source characters of the unbroken run of half-width content and dots
/// that ends just before `i`: what an abbreviation is matched against.
pub open spec fn abbr_prefix(s: Seq<NodeView>, i: int) -> Seq<char>
    decreases i,
{
    if i <= 0 {
        Seq::empty()
    } else {
        let p = s[i - 1];
        match p {
            NodeView::HalfwidthContent { value, space_after, .. } => {
                if space_after.original.len() == 0 {
                    abbr_prefix(s, i - 1) + value
                } else {
                    Seq::empty()
                }
            },
            NodeView::Char { value, space_after } => {
                if value.original == '.' && space_after.original.len() == 0 {
                    abbr_prefix(s, i - 1) + seq!['.']
                } else {
                    Seq::empty()
                }
            },
            _ => Seq::empty(),
        }
    }
}

/// The views of a string list.
pub open spec fn strings_view(v: Seq<String>) -> Seq<Seq<char>> {
    Seq::new(v.len(), |i: int| v[i]@)
}

/// Whether the source text of the run ending at the dot at `i` (the dot
/// included) equals one of the abbreviations.
pub open spec fn spec_match_abbr(s: Seq<NodeView>, i: int, abbrs: Seq<Seq<char>>) -> bool {
    exists|k: int| 0 <= k < abbrs.len() && abbrs[k] == abbr_prefix(s, i) + seq!['.']
}

/// Collects the run of half-width content and dots ending just before `i`.
fn collect_abbr_prefix(nodes: &Vec<Node>, i: usize) -> (v: Vec<char>)
    requires
        i <= nodes@.len(),
    ensures
        v@ == abbr_prefix(nodes_view(nodes@), i as int),
    decreases i,
{
    proof {
        lemma_nodes_view(nodes@);
    }
    if i == 0 {
        return Vec::new();
    }
    match &nodes[i - 1] {
        Node::HalfwidthContent { value, space_after, .. } => {
            if space_after.original.is_blank() {
                let mut v = collect_abbr_prefix(nodes, i - 1);
                let mut tail = str_chars(value.as_str());
                v.append(&mut tail);
                v
            } else {
                Vec::new()
            }
        },
        Node::Char { value, space_after } => {
            if value.original == '.' && space_after.original.is_blank() {
                let mut v = collect_abbr_prefix(nodes, i - 1);
                v.push('.');
                proof {
                    assert(v@ =~= abbr_prefix(nodes_view(nodes@), i as int - 1) + seq!['.']);
                }
                v
            } else {
                Vec::new()
            }
        },
        _ => Vec::new(),
    }
}

/// Whether the source run ending at the dot at `index` matches one of the
/// configured abbreviations.
pub fn match_abbr(nodes: &Vec<Node>, index: usize, abbrs: &Vec<String>) -> (r: bool)
    requires
        index < nodes@.len(),
    ensures
        r == spec_match_abbr(nodes_view(nodes@), index as int, strings_view(abbrs@)),
{
    let mut v = collect_abbr_prefix(nodes, index);
    v.push('.');
    proof {
        assert(v@ =~= abbr_prefix(nodes_view(nodes@), index as int) + seq!['.']);
    }
    let collected = string_from_chars(&v);
    let mut k: usize = 0;
    while k < abbrs.len()
        invariant
            k <= abbrs@.len(),
            collected@ == abbr_prefix(nodes_view(nodes@), index as int) + seq!['.'],
            forall|m: int|
                0 <= m < k ==> strings_view(abbrs@)[m] != abbr_prefix(
                    nodes_view(nodes@),
                    index as int,
                ) + seq!['.'],
        decreases abbrs@.len() - k,
    {
        if abbrs[k].eq(&collected) {
            proof {
                assert(strings_view(abbrs@)[k as int] == abbrs@[k as int]@);
            }
            return true;
        }
        k = k + 1;
    }
    false
}

} // verus!
