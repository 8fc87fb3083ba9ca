//! Turns source text plus its structural markup events into a flat token
//! stream: markup markers pass through with their offsets, and each text
//! payload is re-emitted one character at a time with byte offsets.
use vstd::prelude::*;
use vstd::string::StrSliceExecFns;
use vstd::utf8::encode_utf8;

use pulldown_cmark::{Event, Tag};

use crate::encoding::{
    char_utf8_len, lemma_encode_utf8_take_len, lemma_encode_utf8_take_succ, utf8_len,
};
use crate::errors::Span;

verus! {

/// The structural categories of markup the engine distinguishes.
#[derive(Debug, Clone, Copy, PartialEq, Eq, Structural)]
pub enum MarkupKind {
    /// A paragraph opens.
    ParagraphStart,
    /// A paragraph closes.
    ParagraphEnd,
    /// Any other tagged element opens (emphasis, strong, link, ...).
    WrapperStart,
    /// Any other tagged element closes.
    WrapperEnd,
    /// An inline code span.
    Code,
    /// Anything else (html, breaks, rules, ...).
    Other,
}

/// One pre-tokenized piece of the source: a markup marker, or a text payload
/// anchored at its starting byte offset.
#[derive(Debug, Clone)]
pub enum SourceItem {
    Markup { kind: MarkupKind, offset: Span },
    Text { value: String, start: usize },
}

impl SourceItem {
    pub fn mark(kind: MarkupKind, start: usize, end: usize) -> (r: SourceItem)
        ensures
            r == (SourceItem::Markup { kind, offset: Span { start, end } }),
    {
        SourceItem::Markup { kind, offset: Span { start, end } }
    }

    pub fn text(value: String, start: usize) -> (r: SourceItem)
        ensures
            r == (SourceItem::Text { value, start }),
    {
        SourceItem::Text { value, start }
    }
}

/// One token of the flat stream the parser consumes.
#[derive(Debug, Clone)]
pub enum Token {
    Event { value: MarkupKind, offset: Span },
    Char { value: char, offset: Span },
}

impl Token {
    pub open spec fn spec_offset(self) -> Span {
        match self {
            Token::Event { offset, .. } => offset,
            Token::Char { offset, .. } => offset,
        }
    }

    pub fn offset(&self) -> (r: Span)
        ensures
            r == self.spec_offset(),
    {
        match self {
            Token::Event { offset, .. } => *offset,
            Token::Char { offset, .. } => *offset,
        }
    }
}

/// The markup items that the markdown front end yields for a source text.
pub uninterp spec fn md_items_of(s: Seq<char>) -> Seq<SourceItem>;

/// Relies on pulldown_cmark's `Parser` with `into_offset_iter`: the event
/// stream is a function of the source text alone. Nothing is claimed about
/// the ranges or the payload sizes: an entity reference can expand to a text
/// payload holding more bytes than the source range it was read from.
#[verifier::external_body]
pub fn markdown_source(text: &str) -> (r: Vec<SourceItem>)
    ensures
        r@ == md_items_of(text@),
{
    let mut items = Vec::new();
    for (e, o) in pulldown_cmark::Parser::new(text).into_offset_iter() {
        let kind = match e {
            Event::Start(Tag::Paragraph) => MarkupKind::ParagraphStart,
            Event::End(Tag::Paragraph) => MarkupKind::ParagraphEnd,
            Event::Start(_) => MarkupKind::WrapperStart,
            Event::End(_) => MarkupKind::WrapperEnd,
            Event::Code(_) => MarkupKind::Code,
            Event::Text(t) => { items.push(SourceItem::text(t.to_string(), o.start)); continue; },
            _ => MarkupKind::Other,
        };
        items.push(SourceItem::mark(kind, o.start, o.end));
    }
    items
}

/// A character token covering the given byte range.
pub open spec fn mk_char_token(c: char, start: usize, end: usize) -> Token {
    Token::Char { value: c, offset: Span { start, end } }
}

/// The byte offset of character `i` of a text whose encoding starts at `base`.
pub open spec fn char_start(s: Seq<char>, i: int, base: int) -> int {
    base + encode_utf8(s.take(i)).len()
}

/// The tokens of one text payload: one character token each, with byte
/// offsets accumulated from the payload's starting offset.
pub open spec fn text_tokens(s: Seq<char>, base: int) -> Seq<Token> {
    Seq::new(
        s.len(),
        |i: int|
            mk_char_token(
                s[i],
                char_start(s, i, base) as usize,
                char_start(s, i + 1, base) as usize,
            ),
    )
}

/// The tokens of one source item: a markup marker passes through; a text
/// payload is split into character tokens, unless its byte offsets could not
/// be represented at all, in which case it yields no tokens.
pub open spec fn item_tokens(it: SourceItem) -> Seq<Token> {
    match it {
        SourceItem::Markup { kind, offset } => seq![Token::Event { value: kind, offset }],
        SourceItem::Text { value, start } => {
            if start + encode_utf8(value@).len() <= usize::MAX {
                text_tokens(value@, start as int)
            } else {
                Seq::empty()
            }
        },
    }
}

/// The token stream of a whole item list.
pub open spec fn tokens_of(items: Seq<SourceItem>) -> Seq<Token>
    decreases items.len(),
{
    if items.len() == 0 {
        Seq::empty()
    } else {
        tokens_of(items.drop_last()) + item_tokens(items.last())
    }
}

proof fn lemma_tokens_of_take_succ(items: Seq<SourceItem>, i: int)
    requires
        0 <= i < items.len(),
    ensures
        tokens_of(items.take(i + 1)) == tokens_of(items.take(i)) + item_tokens(items[i]),
{
    assert(items.take(i + 1).drop_last() =~= items.take(i));
    assert(items.take(i + 1).last() == items[i]);
}

/// Tokenizes one text payload anchored at byte offset `start`.
fn tokenize_text(value: &String, start: usize) -> (r: Vec<Token>)
    requires
        start + encode_utf8(value@).len() <= usize::MAX,
    ensures
        r@ == text_tokens(value@, start as int),
{
    let s = value.as_str();
    let len = s.unicode_len();
    let mut r: Vec<Token> = Vec::new();
    let mut pos: usize = start;
    let mut i: usize = 0;
    proof {
        assert(value@.take(0) =~= Seq::<char>::empty());
    }
    while i < len
        invariant
            s@ == value@,
            len == value@.len(),
            i <= len,
            start + encode_utf8(value@).len() <= usize::MAX,
            pos == char_start(value@, i as int, start as int),
            r@ == text_tokens(value@, start as int).take(i as int),
        decreases len - i,
    {
        let c = s.get_char(i);
        let w = char_utf8_len(c);
        proof {
            lemma_encode_utf8_take_succ(value@, i as int);
            lemma_encode_utf8_take_len(value@, i as int + 1);
        }
        let end = pos + w;
        r.push(Token::Char { value: c, offset: Span { start: pos, end } });
        proof {
            let tt = text_tokens(value@, start as int);
            let ii = i as int;
            assert(tt[ii] == mk_char_token(c, pos, end));
            assert(r@ =~= tt.take(ii + 1));
        }
        pos = end;
        i = i + 1;
    }
    proof {
        assert(r@ =~= text_tokens(value@, start as int));
    }
    r
}

/// Turns the markup items of one source text into the flat token stream.
pub fn tokenize(items: &Vec<SourceItem>) -> (r: Vec<Token>)
    ensures
        r@ == tokens_of(items@),
{
    let mut r: Vec<Token> = Vec::new();
    let mut i: usize = 0;
    proof {
        assert(tokens_of(items@.take(0)) =~= Seq::<Token>::empty());
    }
    while i < items.len()
        invariant
            i <= items@.len(),
            r@ == tokens_of(items@.take(i as int)),
        decreases items@.len() - i,
    {
        let item = &items[i];
        proof {
            lemma_tokens_of_take_succ(items@, i as int);
        }
        match item {
            SourceItem::Markup { kind, offset } => {
                r.push(Token::Event { value: *kind, offset: *offset });
            },
            SourceItem::Text { value, start } => {
                let payload = value.as_str().as_bytes_vec();
                let payload_len = payload.len();
                if *start <= usize::MAX - payload_len {
                    let mut toks = tokenize_text(value, *start);
                    r.append(&mut toks);
                }
            },
        }
        proof {
            assert(r@ =~= tokens_of(items@.take(i as int + 1)));
        }
        i = i + 1;
    }
    proof {
        assert(items@.take(items@.len() as int) =~= items@);
    }
    r
}

/// The whole front end: markdown events for a text, flattened into tokens.
pub fn lex(text: &str) -> (r: Vec<Token>)
    ensures
        r@ == tokens_of(md_items_of(text@)),
{
    let items = markdown_source(text);
    tokenize(&items)
}

} // verus!
