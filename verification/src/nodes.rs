//! The node tree that the rule engine rewrites: rewritable values, whitespace
//! runs, and the nodes a paragraph is parsed into.
use vstd::prelude::*;
use vstd::string::StrSliceExecFns;

use crate::errors::Span;
use crate::lexer::MarkupKind;

verus! {

broadcast use {
    vstd::std_specs::vec::axiom_vec_index_decreases,
    vstd::std_specs::vec::axiom_vec_decreases_to_view,
    vstd::seq::axiom_seq_index_decreases,
};

/// A run of whitespace between two nodes.
#[derive(Debug, Clone)]
pub enum Space {
    /// No whitespace at all.
    Empty,
    /// Exactly one ordinary space.
    One,
    /// Any other whitespace run, kept verbatim.
    Literal(String),
}

/// Whether two spaces hold the same whitespace text.
pub open spec fn space_eqv(a: Space, b: Space) -> bool {
    a.chars() == b.chars()
}

impl Space {
    pub fn is_empty(&self) -> (r: bool)
        ensures
            r == (self is Empty),
    {
        matches!(self, Space::Empty)
    }

    /// The whitespace text this value stands for.
    pub open spec fn chars(self) -> Seq<char> {
        match self {
            Space::Empty => Seq::empty(),
            Space::One => seq![' '],
            Space::Literal(s) => s@,
        }
    }

    pub fn eq_space(&self, other: &Space) -> (r: bool)
        ensures
            r == space_eqv(*self, *other),
    {
        match (self, other) {
            (Space::Empty, Space::Empty) => true,
            (Space::One, Space::One) => true,
            (Space::Literal(x), Space::Literal(y)) => x.eq(y),
            (Space::Empty, Space::Literal(y)) => {
                let r = y.as_str().is_empty();
                proof {
                    if r {
                        assert(y@ =~= Seq::<char>::empty());
                    }
                }
                r
            },
            (Space::Literal(x), Space::Empty) => {
                let r = x.as_str().is_empty();
                proof {
                    if r {
                        assert(x@ =~= Seq::<char>::empty());
                    }
                }
                r
            },
            (Space::One, Space::Literal(y)) => {
                let r = y.as_str().unicode_len() == 1 && y.as_str().get_char(0) == ' ';
                proof {
                    if r {
                        assert(y@ =~= seq![' ']);
                    } else if y@ == seq![' '] {
                        assert(y@.len() == 1 && y@[0] == ' ');
                    }
                }
                r
            },
            (Space::Literal(x), Space::One) => {
                let r = x.as_str().unicode_len() == 1 && x.as_str().get_char(0) == ' ';
                proof {
                    if r {
                        assert(x@ =~= seq![' ']);
                    } else if x@ == seq![' '] {
                        assert(x@.len() == 1 && x@[0] == ' ');
                    }
                }
                r
            },
            (Space::Empty, Space::One) => {
                proof {
                    assert(self.chars().len() == 0 && other.chars().len() == 1);
                }
                false
            },
            (Space::One, Space::Empty) => {
                proof {
                    assert(self.chars().len() == 1 && other.chars().len() == 0);
                }
                false
            },
        }
    }

    /// Whether this whitespace run holds no characters.
    pub fn is_blank(&self) -> (r: bool)
        ensures
            r == (self.chars().len() == 0),
    {
        match self {
            Space::Empty => true,
            Space::One => false,
            Space::Literal(x) => x.as_str().is_empty(),
        }
    }
}

/// A value that a rule may propose to rewrite, with its byte range in the
/// source text. The original is never overwritten: a proposal lives in
/// `modified`, and proposing the original again clears it.
#[derive(Debug, Clone)]
pub struct OffsetValue<T> {
    pub original: T,
    pub modified: Option<T>,
    pub offset: Span,
}

impl<T> OffsetValue<T> {
    /// The effective value: the proposed one if any, else the original.
    pub open spec fn eff(self) -> T {
        match self.modified {
            Some(m) => m,
            None => self.original,
        }
    }

    pub fn new(value: T, offset: Span) -> (r: Self)
        ensures
            r == (OffsetValue { original: value, modified: None::<T>, offset }),
    {
        OffsetValue { original: value, modified: None, offset }
    }

    /// The effective ("modified-or-original") value.
    pub fn modified(&self) -> (r: &T)
        ensures
            *r == self.eff(),
    {
        match &self.modified {
            Some(m) => m,
            None => &self.original,
        }
    }

    pub fn revert_modified(&mut self)
        ensures
            *final(self) == (OffsetValue { modified: None::<T>, ..*old(self) }),
    {
        self.modified = None;
    }
}

/// What `to_be` leaves in the `modified` field: a proposal equal to the
/// original is recorded as no proposal at all.
pub open spec fn char_to_be(v: OffsetValue<char>, m: char) -> OffsetValue<char> {
    OffsetValue { modified: if m == v.original { None } else { Some(m) }, ..v }
}

impl OffsetValue<char> {
    /// The original character, by value.
    pub fn original_value(&self) -> (r: char)
        ensures
            r == self.original,
    {
        self.original
    }

    pub fn to_be(&mut self, modified: char)
        ensures
            *final(self) == char_to_be(*old(self), modified),
    {
        if self.original != modified {
            self.modified = Some(modified);
        } else {
            self.modified = None;
        }
    }
}

/// As `char_to_be`, for whitespace runs; equality is by whitespace text.
pub open spec fn space_to_be(v: OffsetValue<Space>, m: Space) -> OffsetValue<Space> {
    OffsetValue { modified: if space_eqv(m, v.original) { None } else { Some(m) }, ..v }
}

impl OffsetValue<Space> {
    pub fn to_be(&mut self, modified: Space)
        ensures
            *final(self) == space_to_be(*old(self), modified),
    {
        if !self.original.eq_space(&modified) {
            self.modified = Some(modified);
        } else {
            self.modified = None;
        }
    }
}

/// One element of a parsed paragraph.
#[derive(Debug)]
pub enum Node {
    /// A single atomic character plus its trailing whitespace.
    Char { value: OffsetValue<char>, space_after: OffsetValue<Space> },
    /// A maximal run of half-width letters or digits.
    HalfwidthContent { value: String, offset: Span, space_after: OffsetValue<Space> },
    /// A maximal run of full-width letters or digits.
    FullwidthContent { value: String, offset: Span, space_after: OffsetValue<Space> },
    /// An opaque structural markup marker.
    Event { value: MarkupKind, offset: Span, space_after: OffsetValue<Space> },
    /// A matched quotation pair with its nested contents.
    Group {
        start: OffsetValue<char>,
        inner_space_before: OffsetValue<Space>,
        nodes: Vec<Node>,
        end: OffsetValue<char>,
        space_after: OffsetValue<Space>,
    },
}

/// The parse result for one paragraph.
#[derive(Debug)]
pub struct ParagraphNodes(pub Vec<Node>);

impl Node {
    /// The trailing whitespace of any node.
    pub open spec fn spec_space_after(self) -> OffsetValue<Space> {
        match self {
            Node::Char { space_after, .. } => space_after,
            Node::HalfwidthContent { space_after, .. } => space_after,
            Node::FullwidthContent { space_after, .. } => space_after,
            Node::Event { space_after, .. } => space_after,
            Node::Group { space_after, .. } => space_after,
        }
    }

    /// The same node with its trailing whitespace replaced.
    pub open spec fn with_space_after(self, sp: OffsetValue<Space>) -> Node {
        match self {
            Node::Char { value, .. } => Node::Char { value, space_after: sp },
            Node::HalfwidthContent { value, offset, .. } => Node::HalfwidthContent {
                value,
                offset,
                space_after: sp,
            },
            Node::FullwidthContent { value, offset, .. } => Node::FullwidthContent {
                value,
                offset,
                space_after: sp,
            },
            Node::Event { value, offset, .. } => Node::Event { value, offset, space_after: sp },
            Node::Group { start, inner_space_before, nodes, end, .. } => Node::Group {
                start,
                inner_space_before,
                nodes,
                end,
                space_after: sp,
            },
        }
    }

    pub fn space_after(&self) -> (r: &OffsetValue<Space>)
        ensures
            *r == self.spec_space_after(),
    {
        match self {
            Node::Char { space_after, .. } => space_after,
            Node::HalfwidthContent { space_after, .. } => space_after,
            Node::FullwidthContent { space_after, .. } => space_after,
            Node::Event { space_after, .. } => space_after,
            Node::Group { space_after, .. } => space_after,
        }
    }

    /// Whether the node's source carried trailing whitespace. Presence is
    /// judged by the whitespace text, so a literal run holding no characters
    /// counts as no space (the tree builder never records one).
    pub fn has_space_after(&self) -> (r: bool)
        ensures
            r == (self.spec_space_after()@.original.len() != 0),
    {
        !self.space_after().original.is_blank()
    }

    pub fn add_space_after(&mut self)
        ensures
            *final(self) == old(self).with_space_after(
                space_to_be(old(self).spec_space_after(), Space::One),
            ),
    {
        self.space_after_to_be(Space::One)
    }

    pub fn remove_space_after(&mut self)
        ensures
            *final(self) == old(self).with_space_after(
                space_to_be(old(self).spec_space_after(), Space::Empty),
            ),
    {
        self.space_after_to_be(Space::Empty)
    }

    pub fn modify_space_after(&mut self, space: Space)
        ensures
            *final(self) == old(self).with_space_after(
                space_to_be(old(self).spec_space_after(), space),
            ),
    {
        self.space_after_to_be(space)
    }

    fn space_after_to_be(&mut self, space: Space)
        ensures
            *final(self) == old(self).with_space_after(
                space_to_be(old(self).spec_space_after(), space),
            ),
    {
        match self {
            Node::Char { space_after, .. } => space_after.to_be(space),
            Node::HalfwidthContent { space_after, .. } => space_after.to_be(space),
            Node::FullwidthContent { space_after, .. } => space_after.to_be(space),
            Node::Event { space_after, .. } => space_after.to_be(space),
            Node::Group { space_after, .. } => space_after.to_be(space),
        }
    }

    pub fn revert_space_after(&mut self)
        ensures
            *final(self) == old(self).with_space_after(
                OffsetValue {
                    modified: None::<Space>,
                    ..old(self).spec_space_after()
                },
            ),
    {
        match self {
            Node::Char { space_after, .. } => space_after.revert_modified(),
            Node::HalfwidthContent { space_after, .. } => space_after.revert_modified(),
            Node::FullwidthContent { space_after, .. } => space_after.revert_modified(),
            Node::Event { space_after, .. } => space_after.revert_modified(),
            Node::Group { space_after, .. } => space_after.revert_modified(),
        }
    }

    pub open spec fn is_start_wrapper_spec(self) -> bool {
        match self {
            Node::Event { value, .. } => value is ParagraphStart || value is WrapperStart,
            _ => false,
        }
    }

    pub open spec fn is_end_wrapper_spec(self) -> bool {
        match self {
            Node::Event { value, .. } => value is ParagraphEnd || value is WrapperEnd,
            _ => false,
        }
    }

    pub open spec fn is_wrapper_spec(self) -> bool {
        self.is_start_wrapper_spec() || self.is_end_wrapper_spec()
    }

    pub fn is_start_wrapper(&self) -> (r: bool)
        ensures
            r == self.is_start_wrapper_spec(),
    {
        match self {
            Node::Event { value, .. } => matches!(
                value,
                MarkupKind::ParagraphStart | MarkupKind::WrapperStart
            ),
            _ => false,
        }
    }

    pub fn is_end_wrapper(&self) -> (r: bool)
        ensures
            r == self.is_end_wrapper_spec(),
    {
        match self {
            Node::Event { value, .. } => matches!(
                value,
                MarkupKind::ParagraphEnd | MarkupKind::WrapperEnd
            ),
            _ => false,
        }
    }

    pub fn is_wrapper(&self) -> (r: bool)
        ensures
            r == self.is_wrapper_spec(),
    {
        self.is_start_wrapper() || self.is_end_wrapper()
    }

    /// Whether this is an inline-code marker.
    pub open spec fn is_code_spec(self) -> bool {
        match self {
            Node::Event { value, .. } => value is Code,
            _ => false,
        }
    }

    pub fn is_code(&self) -> (r: bool)
        ensures
            r == self.is_code_spec(),
    {
        match self {
            Node::Event { value, .. } => matches!(value, MarkupKind::Code),
            _ => false,
        }
    }
}

/// The mathematical view of an `OffsetValue<Space>`: whitespace as its
/// character sequence.
pub struct OffsetSpaceView {
    pub original: Seq<char>,
    pub modified: Option<Seq<char>>,
    pub offset: Span,
}

impl View for OffsetValue<Space> {
    type V = OffsetSpaceView;

    open spec fn view(&self) -> OffsetSpaceView {
        OffsetSpaceView {
            original: self.original.chars(),
            modified: match self.modified {
                Some(m) => Some(m.chars()),
                None => None,
            },
            offset: self.offset,
        }
    }
}

/// The effective whitespace text of a viewed space: the proposal if any,
/// else the original.
impl OffsetSpaceView {
    pub open spec fn eff(self) -> Seq<char> {
        match self.modified {
            Some(m) => m,
            None => self.original,
        }
    }
}

/// The mathematical view of a `Node`: strings become character sequences and
/// nested node lists become sequences of views.
pub enum NodeView {
    Char { value: OffsetValue<char>, space_after: OffsetSpaceView },
    HalfwidthContent { value: Seq<char>, offset: Span, space_after: OffsetSpaceView },
    FullwidthContent { value: Seq<char>, offset: Span, space_after: OffsetSpaceView },
    Event { value: MarkupKind, offset: Span, space_after: OffsetSpaceView },
    Group {
        start: OffsetValue<char>,
        inner_space_before: OffsetSpaceView,
        nodes: Seq<NodeView>,
        end: OffsetValue<char>,
        space_after: OffsetSpaceView,
    },
}

/// The view of one node.
pub open spec fn node_view(n: Node) -> NodeView
    decreases n,
{
    match n {
        Node::Char { value, space_after } => NodeView::Char { value, space_after: space_after@ },
        Node::HalfwidthContent { value, offset, space_after } => NodeView::HalfwidthContent {
            value: value@,
            offset,
            space_after: space_after@,
        },
        Node::FullwidthContent { value, offset, space_after } => NodeView::FullwidthContent {
            value: value@,
            offset,
            space_after: space_after@,
        },
        Node::Event { value, offset, space_after } => NodeView::Event {
            value,
            offset,
            space_after: space_after@,
        },
        Node::Group { start, inner_space_before, nodes, end, space_after } => NodeView::Group {
            start,
            inner_space_before: inner_space_before@,
            nodes: nodes_view(nodes@),
            end,
            space_after: space_after@,
        },
    }
}

/// The views of a node list.
pub open spec fn nodes_view(s: Seq<Node>) -> Seq<NodeView>
    decreases s,
{
    if s.len() == 0 {
        Seq::empty()
    } else {
        seq![node_view(s[0])] + nodes_view(s.subrange(1, s.len() as int))
    }
}

/// A node list's view is the view of each node in place.
pub proof fn lemma_nodes_view(s: Seq<Node>)
    ensures
        nodes_view(s).len() == s.len(),
        forall|i: int| 0 <= i < s.len() ==> #[trigger] nodes_view(s)[i] == node_view(s[i]),
    decreases s.len(),
{
    if s.len() > 0 {
        lemma_nodes_view(s.subrange(1, s.len() as int));
    }
}

impl View for Node {
    type V = NodeView;

    open spec fn view(&self) -> NodeView {
        node_view(*self)
    }
}

impl View for ParagraphNodes {
    type V = Seq<NodeView>;

    open spec fn view(&self) -> Seq<NodeView> {
        nodes_view(self.0@)
    }
}

impl NodeView {
    /// The trailing whitespace of any viewed node.
    pub open spec fn space_after(self) -> OffsetSpaceView {
        match self {
            NodeView::Char { space_after, .. } => space_after,
            NodeView::HalfwidthContent { space_after, .. } => space_after,
            NodeView::FullwidthContent { space_after, .. } => space_after,
            NodeView::Event { space_after, .. } => space_after,
            NodeView::Group { space_after, .. } => space_after,
        }
    }

    /// The same viewed node with its trailing whitespace replaced.
    pub open spec fn with_space_after(self, sp: OffsetSpaceView) -> NodeView {
        match self {
            NodeView::Char { value, .. } => NodeView::Char { value, space_after: sp },
            NodeView::HalfwidthContent { value, offset, .. } => NodeView::HalfwidthContent {
                value,
                offset,
                space_after: sp,
            },
            NodeView::FullwidthContent { value, offset, .. } => NodeView::FullwidthContent {
                value,
                offset,
                space_after: sp,
            },
            NodeView::Event { value, offset, .. } => NodeView::Event {
                value,
                offset,
                space_after: sp,
            },
            NodeView::Group { start, inner_space_before, nodes, end, .. } => NodeView::Group {
                start,
                inner_space_before,
                nodes,
                end,
                space_after: sp,
            },
        }
    }

    pub open spec fn is_start_wrapper(self) -> bool {
        match self {
            NodeView::Event { value, .. } => value is ParagraphStart || value is WrapperStart,
            _ => false,
        }
    }

    pub open spec fn is_end_wrapper(self) -> bool {
        match self {
            NodeView::Event { value, .. } => value is ParagraphEnd || value is WrapperEnd,
            _ => false,
        }
    }

    pub open spec fn is_wrapper(self) -> bool {
        self.is_start_wrapper() || self.is_end_wrapper()
    }

    pub open spec fn is_code(self) -> bool {
        match self {
            NodeView::Event { value, .. } => value is Code,
            _ => false,
        }
    }
}

/// What a whitespace proposal leaves in a viewed space: proposing the
/// original text clears the proposal.
pub open spec fn view_space_to_be(sp: OffsetSpaceView, m: Seq<char>) -> OffsetSpaceView {
    OffsetSpaceView {
        modified: if m == sp.original {
            None
        } else {
            Some(m)
        },
        ..sp
    }
}

/// Replacing a node's trailing whitespace commutes with taking views.
pub proof fn lemma_node_view_with_space(n: Node, ov: OffsetValue<Space>)
    ensures
        node_view(n.with_space_after(ov)) == node_view(n).with_space_after(ov@),
{
}

/// Proposing a space commutes with taking views.
pub proof fn lemma_space_to_be_view(ov: OffsetValue<Space>, m: Space)
    ensures
        space_to_be(ov, m)@ == view_space_to_be(ov@, m.chars()),
{
}

/// Updating one node of a list updates its view in place.
pub proof fn lemma_nodes_view_update(s: Seq<Node>, i: int, n: Node)
    requires
        0 <= i < s.len(),
    ensures
        nodes_view(s.update(i, n)) == nodes_view(s).update(i, node_view(n)),
{
    lemma_nodes_view(s);
    lemma_nodes_view(s.update(i, n));
    assert(nodes_view(s.update(i, n)) =~= nodes_view(s).update(i, node_view(n)));
}

/// The node list with the trailing whitespace of the node at `i` proposed to
/// be `m`.
pub open spec fn view_set_space(s: Seq<NodeView>, i: int, m: Seq<char>) -> Seq<NodeView> {
    s.update(i, s[i].with_space_after(view_space_to_be(s[i].space_after(), m)))
}

/// The node list with the whitespace proposal of the node at `i` cleared.
pub open spec fn view_revert_space(s: Seq<NodeView>, i: int) -> Seq<NodeView> {
    s.update(
        i,
        s[i].with_space_after(
            OffsetSpaceView { modified: None, ..s[i].space_after() },
        ),
    )
}

/// Proposes `sp` as the trailing whitespace of the node at `i`.
pub fn modify_node_space(nodes: &mut Vec<Node>, i: usize, sp: Space)
    requires
        i < old(nodes)@.len(),
    ensures
        final(nodes)@.len() == old(nodes)@.len(),
        nodes_view(final(nodes)@) == view_set_space(nodes_view(old(nodes)@), i as int, sp.chars()),
{
    let ghost s0 = nodes@;
    let ghost spv = sp.chars();
    let node = &mut nodes[i];
    node.modify_space_after(sp);
    proof {
        lemma_node_view_with_space(s0[i as int], space_to_be(s0[i as int].spec_space_after(), sp));
        lemma_space_to_be_view(s0[i as int].spec_space_after(), sp);
        lemma_nodes_view_update(s0, i as int, nodes@[i as int]);
        lemma_nodes_view(s0);
        assert(nodes_view(nodes@) =~= view_set_space(nodes_view(s0), i as int, spv));
    }
}

/// Clears the whitespace proposal of the node at `i`.
pub fn revert_node_space(nodes: &mut Vec<Node>, i: usize)
    requires
        i < old(nodes)@.len(),
    ensures
        final(nodes)@.len() == old(nodes)@.len(),
        nodes_view(final(nodes)@) == view_revert_space(nodes_view(old(nodes)@), i as int),
{
    let ghost s0 = nodes@;
    let node = &mut nodes[i];
    node.revert_space_after();
    proof {
        lemma_node_view_with_space(
            s0[i as int],
            OffsetValue { modified: None, ..s0[i as int].spec_space_after() },
        );
        lemma_nodes_view_update(s0, i as int, nodes@[i as int]);
        lemma_nodes_view(s0);
        assert(nodes_view(nodes@) =~= view_revert_space(nodes_view(s0), i as int));
    }
}

/// The nesting depth of quotation groups below a viewed node.
pub open spec fn view_height(n: NodeView) -> nat
    decreases n,
{
    match n {
        NodeView::Group { nodes, .. } => 1 + views_height(nodes),
        _ => 0,
    }
}

/// The greatest nesting depth among a viewed node list.
pub open spec fn views_height(s: Seq<NodeView>) -> nat
    decreases s,
{
    if s.len() == 0 {
        0
    } else {
        let h0 = view_height(s[0]);
        let hr = views_height(s.subrange(1, s.len() as int));
        if h0 > hr {
            h0
        } else {
            hr
        }
    }
}

/// Every element's height is bounded by the list's height.
pub proof fn lemma_views_height_elem(s: Seq<NodeView>, i: int)
    requires
        0 <= i < s.len(),
    ensures
        view_height(s[i]) <= views_height(s),
    decreases s.len(),
{
    if i > 0 {
        lemma_views_height_elem(s.subrange(1, s.len() as int), i - 1);
    }
}

} // verus!
