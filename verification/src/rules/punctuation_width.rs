//! Converts each punctuation character (or a quotation group's delimiters)
//! into the half-width or full-width form requested by the two configured
//! character sets. Skips half-width punctuation sandwiched between half-width
//! content without space, and runs of adjacent half-width punctuation.
use vstd::prelude::*;

use crate::char_kind::{kind, kind_of};
use crate::config::Config;
use crate::cursor::{
    is_halfwidth_punctuation_without_space_around, is_successive_halfwidth_punctuation,
    spec_halfwidth_punct_without_space_around, spec_successive_halfwidth_punctuation,
};
use crate::encoding::str_contains_char;
use crate::nodes::{
    char_to_be, lemma_nodes_view, lemma_nodes_view_update, node_view, nodes_view, Node, NodeView,
    OffsetValue,
};

verus! {

/// The half-width form of a full-width punctuation character.
pub open spec fn to_halfwidth_char(c: char) -> char {
    if c == '\u{FF0C}' {
        ','
    } else if c == '\u{3002}' {
        '.'
    } else if c == '\u{FF1B}' {
        ';'
    } else if c == '\u{FF1A}' {
        ':'
    } else if c == '\u{FF1F}' {
        '?'
    } else if c == '\u{FF01}' {
        '!'
    } else if c == '\u{FF08}' {
        '('
    } else if c == '\u{FF09}' {
        ')'
    } else if c == '\u{FF3B}' {
        '['
    } else if c == '\u{FF3D}' {
        ']'
    } else if c == '\u{FF5B}' {
        '{'
    } else if c == '\u{FF5D}' {
        '}'
    } else if c == '\u{201C}' || c == '\u{201D}' {
        '"'
    } else if c == '\u{2018}' || c == '\u{2019}' {
        '\''
    } else {
        c
    }
}

/// The full-width form of a half-width punctuation character.
pub open spec fn to_fullwidth_char(c: char) -> char {
    if c == ',' {
        '\u{FF0C}'
    } else if c == '.' {
        '\u{3002}'
    } else if c == ';' {
        '\u{FF1B}'
    } else if c == ':' {
        '\u{FF1A}'
    } else if c == '?' {
        '\u{FF1F}'
    } else if c == '!' {
        '\u{FF01}'
    } else if c == '(' {
        '\u{FF08}'
    } else if c == ')' {
        '\u{FF09}'
    } else if c == '[' {
        '\u{FF3B}'
    } else if c == ']' {
        '\u{FF3D}'
    } else if c == '{' {
        '\u{FF5B}'
    } else if c == '}' {
        '\u{FF5D}'
    } else {
        c
    }
}

/// Converts a punctuation character to its half-width form.
pub fn to_halfwidth(c: char) -> (r: char)
    ensures
        r == to_halfwidth_char(c),
{
    match c {
        '\u{FF0C}' => ',',
        '\u{3002}' => '.',
        '\u{FF1B}' => ';',
        '\u{FF1A}' => ':',
        '\u{FF1F}' => '?',
        '\u{FF01}' => '!',
        '\u{FF08}' => '(',
        '\u{FF09}' => ')',
        '\u{FF3B}' => '[',
        '\u{FF3D}' => ']',
        '\u{FF5B}' => '{',
        '\u{FF5D}' => '}',
        '\u{201C}' | '\u{201D}' => '"',
        '\u{2018}' | '\u{2019}' => '\'',
        _ => c,
    }
}

/// Converts a punctuation character to its full-width form.
pub fn to_fullwidth(c: char) -> (r: char)
    ensures
        r == to_fullwidth_char(c),
{
    match c {
        ',' => '\u{FF0C}',
        '.' => '\u{3002}',
        ';' => '\u{FF1B}',
        ':' => '\u{FF1A}',
        '?' => '\u{FF1F}',
        '!' => '\u{FF01}',
        '(' => '\u{FF08}',
        ')' => '\u{FF09}',
        '[' => '\u{FF3B}',
        ']' => '\u{FF3D}',
        '{' => '\u{FF5B}',
        '}' => '\u{FF5D}',
        _ => c,
    }
}

/// Width conversion of one rewritable character against the two sets: the
/// half-width conversion applies first, the full-width one wins if both do.
pub open spec fn width_check_char(v: OffsetValue<char>, half: Seq<char>, full: Seq<char>) -> OffsetValue<char> {
    let v1 = if half.contains(to_halfwidth_char(v.original)) {
        char_to_be(v, to_halfwidth_char(v.original))
    } else {
        v
    };
    if full.contains(to_fullwidth_char(v1.original)) {
        char_to_be(v1, to_fullwidth_char(v1.original))
    } else {
        v1
    }
}

/// Width conversion of a group's opening delimiter: a plain double or single
/// quote becomes the full-width left quote when that is requested.
pub open spec fn width_start_delim(v: OffsetValue<char>, half: Seq<char>, full: Seq<char>) -> OffsetValue<char> {
    if v.eff() == '"' && full.contains('\u{201C}') {
        char_to_be(v, '\u{201C}')
    } else if v.eff() == '\'' && full.contains('\u{2018}') {
        char_to_be(v, '\u{2018}')
    } else {
        width_check_char(v, half, full)
    }
}

/// Width conversion of a group's closing delimiter.
pub open spec fn width_end_delim(v: OffsetValue<char>, half: Seq<char>, full: Seq<char>) -> OffsetValue<char> {
    if v.eff() == '"' && full.contains('\u{201D}') {
        char_to_be(v, '\u{201D}')
    } else if v.eff() == '\'' && full.contains('\u{2019}') {
        char_to_be(v, '\u{2019}')
    } else {
        width_check_char(v, half, full)
    }
}

/// What the punctuation-width rule leaves at position `i`.
pub open spec fn spec_rule(s: Seq<NodeView>, i: int, cfg: Config) -> Seq<NodeView> {
    let half = cfg.halfwidth_punctuation@;
    let full = cfg.fullwidth_punctuation@;
    match s[i] {
        NodeView::Group { start, inner_space_before, nodes, end, space_after } => s.update(
            i,
            NodeView::Group {
                start: width_start_delim(start, half, full),
                inner_space_before,
                nodes,
                end: width_end_delim(end, half, full),
                space_after,
            },
        ),
        NodeView::Char { value, space_after } => {
            if kind_of(value.original).spec_is_punctuation()
                && !spec_halfwidth_punct_without_space_around(s, i)
                && !spec_successive_halfwidth_punctuation(s, i) && (kind_of(
                value.eff(),
            ).spec_is_single_punctuation() || kind_of(value.eff()).spec_is_bracket_punctuation()) {
                s.update(
                    i,
                    NodeView::Char { value: width_check_char(value, half, full), space_after },
                )
            } else {
                s
            }
        },
        _ => s,
    }
}

/// Applies the width conversion to one rewritable character.
fn check_char_width(v: &mut OffsetValue<char>, config: &Config)
    ensures
        *final(v) == width_check_char(
            *old(v),
            config.halfwidth_punctuation@,
            config.fullwidth_punctuation@,
        ),
{
    let orig = v.original;
    if str_contains_char(config.halfwidth_punctuation.as_str(), to_halfwidth(orig)) {
        v.to_be(to_halfwidth(orig));
    }
    if str_contains_char(config.fullwidth_punctuation.as_str(), to_fullwidth(orig)) {
        v.to_be(to_fullwidth(orig));
    }
}

/// Applies the width conversion to a group's opening delimiter.
fn check_start_delim(v: &mut OffsetValue<char>, config: &Config)
    ensures
        *final(v) == width_start_delim(
            *old(v),
            config.halfwidth_punctuation@,
            config.fullwidth_punctuation@,
        ),
{
    if *v.modified() == '"' && str_contains_char(config.fullwidth_punctuation.as_str(), '\u{201C}')
    {
        v.to_be('\u{201C}');
    } else if *v.modified() == '\'' && str_contains_char(
        config.fullwidth_punctuation.as_str(),
        '\u{2018}',
    ) {
        v.to_be('\u{2018}');
    } else {
        check_char_width(v, config);
    }
}

/// Applies the width conversion to a group's closing delimiter.
fn check_end_delim(v: &mut OffsetValue<char>, config: &Config)
    ensures
        *final(v) == width_end_delim(
            *old(v),
            config.halfwidth_punctuation@,
            config.fullwidth_punctuation@,
        ),
{
    if *v.modified() == '"' && str_contains_char(config.fullwidth_punctuation.as_str(), '\u{201D}')
    {
        v.to_be('\u{201D}');
    } else if *v.modified() == '\'' && str_contains_char(
        config.fullwidth_punctuation.as_str(),
        '\u{2019}',
    ) {
        v.to_be('\u{2019}');
    } else {
        check_char_width(v, config);
    }
}

/// Formats the punctuation at position `index` into the configured width.
pub fn rule(nodes: &mut Vec<Node>, index: usize, config: &Config)
    requires
        index < old(nodes)@.len(),
    ensures
        final(nodes)@.len() == old(nodes)@.len(),
        nodes_view(final(nodes)@) == spec_rule(nodes_view(old(nodes)@), index as int, *config),
{
    let ghost s0 = nodes@;
    let ghost sv = nodes_view(nodes@);
    proof {
        lemma_nodes_view(s0);
    }
    let is_group = matches!(&nodes[index], Node::Group { .. });
    if is_group {
        match &mut nodes[index] {
            Node::Group { start, end, .. } => {
                check_start_delim(start, config);
                check_end_delim(end, config);
            },
            _ => {
                proof {
                    assert(false);
                }
            },
        }
        proof {
            lemma_nodes_view_update(s0, index as int, nodes@[index as int]);
            assert(nodes_view(nodes@) =~= spec_rule(sv, index as int, *config));
        }
        return ;
    }
    let is_punct_char = match &nodes[index] {
        Node::Char { value, .. } => kind(value.original).is_punctuation(),
        _ => false,
    };
    if !is_punct_char {
        return ;
    }
    if is_halfwidth_punctuation_without_space_around(nodes, index) {
        return ;
    }
    if is_successive_halfwidth_punctuation(nodes, index) {
        return ;
    }
    let eff_ok = match &nodes[index] {
        Node::Char { value, .. } => {
            let k = kind(*value.modified());
            k.is_single_punctuation() || k.is_bracket_punctuation()
        },
        _ => false,
    };
    if !eff_ok {
        return ;
    }
    match &mut nodes[index] {
        Node::Char { value, .. } => {
            check_char_width(value, config);
        },
        _ => {
            proof {
                assert(false);
            }
        },
    }
    proof {
        lemma_nodes_view_update(s0, index as int, nodes@[index as int]);
        assert(nodes_view(nodes@) =~= spec_rule(sv, index as int, *config));
    }
}

} // verus!
